//! How database failures become store errors: capacity guards report the
//! limit they enforce, constraint violations on inserts report the
//! duplicate id, and nonce replays are conflicts.
use vstd::prelude::*;

use crate::error::{broken, is_broken, StoreError};
use crate::kinds::BrainKind;
use crate::membership::is_conflict;
use crate::text::{is_whitespace, is_whitespace_char, lead_ws, lemma_lead_ws};

verus! {

/// The pattern occurs in the text at index `i`.
pub open spec fn occurs_at(s: Seq<char>, pat: Seq<char>, i: int) -> bool {
    0 <= i && i + pat.len() <= s.len() && s.subrange(i, i + pat.len()) == pat
}

/// `i` is the first occurrence of the pattern at or after `from`.
pub open spec fn is_first_from(s: Seq<char>, pat: Seq<char>, from: int, i: int) -> bool {
    from <= i && occurs_at(s, pat, i) && forall|j: int| from <= j < i ==> !occurs_at(s, pat, j)
}

/// The first occurrence of the pattern at or after `from`.
pub open spec fn first_from(s: Seq<char>, pat: Seq<char>, from: int) -> Option<int> {
    if exists|i: int| from <= i && occurs_at(s, pat, i) {
        Some(choose|i: int| is_first_from(s, pat, from, i))
    } else {
        None
    }
}

/// Below any occurrence there is a first one.
proof fn lemma_first_occurrence(s: Seq<char>, pat: Seq<char>, from: int, k: int)
    requires
        from <= k,
        occurs_at(s, pat, k),
    ensures
        exists|i: int| is_first_from(s, pat, from, i),
    decreases k - from,
{
    if exists|j: int| from <= j < k && occurs_at(s, pat, j) {
        let j = choose|j: int| from <= j < k && occurs_at(s, pat, j);
        lemma_first_occurrence(s, pat, from, j);
    } else {
        assert(is_first_from(s, pat, from, k));
    }
}

/// A found first occurrence is where the pattern occurs, before any other.
pub proof fn lemma_first_from(s: Seq<char>, pat: Seq<char>, from: int)
    ensures
        first_from(s, pat, from) matches Some(i) ==> is_first_from(s, pat, from, i),
{
    if exists|i: int| from <= i && occurs_at(s, pat, i) {
        let k = choose|i: int| from <= i && occurs_at(s, pat, i);
        lemma_first_occurrence(s, pat, from, k);
    }
}

/// The text contains the pattern.
pub open spec fn contains(s: Seq<char>, pat: Seq<char>) -> bool {
    exists|i: int| occurs_at(s, pat, i)
}

fn occurs_at_exec(s: &str, n: usize, pat: &str, m: usize, i: usize) -> (r: bool)
    requires
        n == s@.len(),
        m == pat@.len(),
    ensures
        r == occurs_at(s@, pat@, i as int),
{
    if i > n || m > n - i {
        return false;
    }
    let mut k: usize = 0;
    while k < m
        invariant
            n == s@.len(),
            m == pat@.len(),
            i + m <= n,
            k <= m,
            forall|j: int| 0 <= j < k ==> s@[i + j] == pat@[j],
        decreases m - k,
    {
        if s.get_char(i + k) != pat.get_char(k) {
            assert(s@.subrange(i as int, i + m)[k as int] != pat@[k as int]);
            return false;
        }
        k += 1;
    }
    assert(s@.subrange(i as int, i + m) =~= pat@);
    true
}

/// Index of the first occurrence of the pattern at or after `from`.
fn find_from(s: &str, pat: &str, from: usize) -> (r: Option<usize>)
    requires
        from <= s@.len(),
    ensures
        match r {
            Some(i) => first_from(s@, pat@, from as int) == Some(i as int),
            None => first_from(s@, pat@, from as int) is None,
        },
{
    let n = s.unicode_len();
    let m = pat.unicode_len();
    if m == 0 {
        proof {
            assert(pat@.len() == 0);
            assert(s@.subrange(from as int, from as int) =~= pat@);
            assert(is_first_from(s@, pat@, from as int, from as int));
        }
        return Some(from);
    }
    if m > n || from > n - m {
        proof {
            assert forall|j: int| from <= j implies !occurs_at(s@, pat@, j) by {}
        }
        return None;
    }
    let mut i: usize = from;
    while i <= n - m
        invariant
            n == s@.len(),
            m == pat@.len(),
            1 <= m <= n,
            from <= i <= n - m + 1,
            forall|j: int| from <= j < i ==> !occurs_at(s@, pat@, j),
        decreases n - m + 1 - i,
    {
        if occurs_at_exec(s, n, pat, m, i) {
            proof {
                assert(is_first_from(s@, pat@, from as int, i as int));
                let k = first_from(s@, pat@, from as int)->0;
                if k < i {
                    assert(!occurs_at(s@, pat@, k));
                }
                if (i as int) < k {
                    assert(!occurs_at(s@, pat@, i as int));
                }
            }
            return Some(i);
        }
        i += 1;
    }
    proof {
        assert forall|j: int| from <= j implies !occurs_at(s@, pat@, j) by {
            if j > n - m {
                assert(!occurs_at(s@, pat@, j));
            }
        }
    }
    None
}

/// True when the text contains the pattern.
pub fn text_contains(s: &str, pat: &str) -> (r: bool)
    ensures
        r == contains(s@, pat@),
{
    let found = find_from(s, pat, 0);
    proof {
        if contains(s@, pat@) {
            let i = choose|i: int| occurs_at(s@, pat@, i);
            assert(0 <= i);
        }
    }
    found.is_some()
}

/// Number of leading characters that are not whitespace.
pub open spec fn lead_non_ws(s: Seq<char>) -> nat
    decreases s.len(),
{
    if s.len() == 0 || is_whitespace_char(s[0]) {
        0
    } else {
        1 + lead_non_ws(s.drop_first())
    }
}

pub proof fn lemma_lead_non_ws(s: Seq<char>, k: int)
    requires
        0 <= k <= s.len(),
        forall|i: int| 0 <= i < k ==> !is_whitespace_char(#[trigger] s[i]),
        k == s.len() || is_whitespace_char(s[k]),
    ensures
        lead_non_ws(s) == k,
    decreases s.len(),
{
    if k > 0 {
        assert forall|i: int| 0 <= i < k - 1 implies !is_whitespace_char(#[trigger] s.drop_first()[i]) by {
            assert(s.drop_first()[i] == s[i + 1]);
        }
        if k < s.len() {
            assert(s.drop_first()[k - 1] == s[k]);
        }
        lemma_lead_non_ws(s.drop_first(), k - 1);
    }
}

/// The first whitespace-separated word, as `split_whitespace().next()`
/// gives it.
pub open spec fn first_word(s: Seq<char>) -> Option<Seq<char>> {
    let a = lead_ws(s);
    if a == s.len() {
        None
    } else {
        Some(s.subrange(a as int, (a + lead_non_ws(s.skip(a as int))) as int))
    }
}

/// Value of a run of decimal digits.
pub open spec fn digits_value(t: Seq<char>) -> nat
    decreases t.len(),
{
    if t.len() == 0 {
        0
    } else {
        digits_value(t.drop_last()) * 10 + ((t.last() as int) - ('0' as int)) as nat
    }
}

pub open spec fn all_digits(t: Seq<char>) -> bool {
    forall|i: int| 0 <= i < t.len() ==> '0' <= #[trigger] t[i] <= '9'
}

/// What `str::parse::<usize>` accepts: an optional '+' and one or more
/// ASCII digits whose value fits in `usize`.
pub open spec fn parse_usize(t: Seq<char>) -> Option<nat> {
    let d = if t.len() > 0 && t[0] == '+' {
        t.drop_first()
    } else {
        t
    };
    if d.len() > 0 && all_digits(d) && digits_value(d) <= usize::MAX {
        Some(digits_value(d))
    } else {
        None
    }
}

/// The marker a capacity guard puts in its failure message.
pub open spec fn capacity_marker() -> Seq<char> {
    "finite_capacity:"@
}

/// The limit name and maximum a capacity guard's message encodes: after the
/// first marker (up to the next one), the text before the first ':' is the
/// limit, and the first word after it, up to the next ':', is the maximum.
pub open spec fn capacity_of(message: Seq<char>) -> Option<(Seq<char>, nat)> {
    let mk = capacity_marker();
    match first_from(message, mk, 0) {
        None => None,
        Some(i) => {
            let start = i + mk.len();
            let end = match first_from(message, mk, start) {
                Some(j) => j,
                None => message.len() as int,
            };
            let encoded = message.subrange(start, end);
            match first_from(encoded, seq![':'], 0) {
                None => None,
                Some(c) => {
                    let rest = encoded.skip(c + 1);
                    let second = match first_from(rest, seq![':'], 0) {
                        Some(d) => rest.take(d),
                        None => rest,
                    };
                    match first_word(second) {
                        None => None,
                        Some(w) => match parse_usize(w) {
                            None => None,
                            Some(max) => Some((encoded.take(c), max)),
                        },
                    }
                },
            }
        },
    }
}

proof fn lemma_digits_value_step(t: Seq<char>, i: int)
    requires
        0 <= i < t.len(),
        '0' <= t[i] <= '9',
    ensures
        digits_value(t.take(i + 1)) == digits_value(t.take(i)) * 10 + ((t[i] as int) - ('0' as int)),
{
    assert(t.take(i + 1).drop_last() =~= t.take(i));
}

/// Parse an unsigned decimal the way `str::parse::<usize>` does.
fn parse_usize_exec(t: &str) -> (r: Option<usize>)
    ensures
        match r {
            Some(v) => parse_usize(t@) == Some(v as nat),
            None => parse_usize(t@) is None,
        },
{
    let n = t.unicode_len();
    let start: usize = if n > 0 && t.get_char(0) == '+' {
        1
    } else {
        0
    };
    let ghost d = if t@.len() > 0 && t@[0] == '+' {
        t@.drop_first()
    } else {
        t@
    };
    proof {
        assert(d =~= t@.skip(start as int));
    }
    if start == n {
        return None;
    }
    let mut value: u128 = 0;
    let mut i: usize = start;
    while i < n
        invariant
            n == t@.len(),
            start <= i <= n,
            d == t@.skip(start as int),
            d == (if t@.len() > 0 && t@[0] == '+' {
                t@.drop_first()
            } else {
                t@
            }),
            value == digits_value(d.take(i - start)),
            value <= usize::MAX,
            all_digits(d.take(i - start)),
        decreases n - i,
    {
        let c = t.get_char(i);
        proof {
            assert(d[i - start] == c);
        }
        if !('0' <= c && c <= '9') {
            proof {
                assert(!all_digits(d));
            }
            return None;
        }
        let digit = (c as u32) - ('0' as u32);
        proof {
            lemma_digits_value_step(d, i - start);
            assert forall|k: int| 0 <= k < i - start + 1 implies '0' <= #[trigger] d.take(i - start + 1)[k] <= '9' by {
                if k < i - start {
                    assert(d.take(i - start + 1)[k] == d.take(i - start)[k]);
                }
            }
        }
        value = value * 10 + digit as u128;
        i += 1;
        if value > usize::MAX as u128 {
            proof {
                lemma_digits_monotone(d, i - start);
            }
            return None;
        }
    }
    proof {
        assert(d.take(i - start) =~= d);
    }
    Some(value as usize)
}

/// A longer run of digits has at least the value of its prefix.
proof fn lemma_digits_monotone(d: Seq<char>, k: int)
    requires
        0 <= k <= d.len(),
    ensures
        digits_value(d) >= digits_value(d.take(k)),
    decreases d.len() - k,
{
    if k < d.len() {
        assert(d.take(k + 1).drop_last() =~= d.take(k));
        lemma_digits_monotone(d, k + 1);
    } else {
        assert(d.take(k) =~= d);
    }
}

/// The limit name and maximum encoded in a capacity guard's failure message.
pub fn parse_capacity_error(message: &str) -> (r: Option<(String, usize)>)
    ensures
        match r {
            Some((limit, max)) => capacity_of(message@) == Some((limit@, max as nat)),
            None => capacity_of(message@) is None,
        },
{
    proof {
        reveal_strlit("finite_capacity:");
        reveal_strlit(":");
    }
    let marker = "finite_capacity:";
    let i = match find_from(message, marker, 0) {
        None => {
            return None;
        },
        Some(i) => i,
    };
    proof {
        lemma_first_from(message@, marker@, 0);
    }
    let n = message.unicode_len();
    let start = i + 16;
    let end = match find_from(message, marker, start) {
        Some(j) => j,
        None => n,
    };
    proof {
        lemma_first_from(message@, marker@, start as int);
    }
    let encoded = message.substring_char(start, end);
    let c = match find_from(encoded, ":", 0) {
        None => {
            proof {
                assert(":"@ =~= seq![':']);
            }
            return None;
        },
        Some(c) => c,
    };
    proof {
        assert(":"@ =~= seq![':']);
        lemma_first_from(encoded@, seq![':'], 0);
    }
    let en = encoded.unicode_len();
    let rest = encoded.substring_char(c + 1, en);
    proof {
        assert(rest@ =~= encoded@.skip(c + 1));
    }
    let rn = rest.unicode_len();
    proof {
        lemma_first_from(rest@, seq![':'], 0);
    }
    let second = match find_from(rest, ":", 0) {
        Some(d) => rest.substring_char(0, d),
        None => rest,
    };
    proof {
        assert(second@ == match first_from(rest@, seq![':'], 0) {
            Some(d) => rest@.take(d),
            None => rest@,
        }) by {
            assert(":"@ =~= seq![':']);
            if let Some(d) = first_from(rest@, seq![':'], 0) {
                assert(rest@.subrange(0, d) =~= rest@.take(d));
            }
        }
    }
    let word = match first_word_exec(second) {
        None => {
            return None;
        },
        Some(w) => w,
    };
    let max = match parse_usize_exec(word) {
        None => {
            return None;
        },
        Some(m) => m,
    };
    proof {
        assert(":"@ =~= seq![':']);
        assert(encoded@.subrange(0, c as int) =~= encoded@.take(c as int));
    }
    Some((encoded.substring_char(0, c).to_owned(), max))
}

/// The first whitespace-separated word.
fn first_word_exec(s: &str) -> (r: Option<&str>)
    ensures
        match r {
            Some(w) => first_word(s@) == Some(w@),
            None => first_word(s@) is None,
        },
{
    let n = s.unicode_len();
    let mut a: usize = 0;
    while a < n && is_whitespace(s.get_char(a))
        invariant
            n == s@.len(),
            a <= n,
            forall|i: int| 0 <= i < a ==> is_whitespace_char(#[trigger] s@[i]),
        decreases n - a,
    {
        a += 1;
    }
    proof {
        lemma_lead_ws(s@, a as int);
    }
    if a == n {
        return None;
    }
    let mut b: usize = a;
    while b < n && !is_whitespace(s.get_char(b))
        invariant
            n == s@.len(),
            a <= b <= n,
            forall|i: int| a <= i < b ==> !is_whitespace_char(#[trigger] s@[i]),
        decreases n - b,
    {
        b += 1;
    }
    proof {
        let t = s@.skip(a as int);
        assert forall|i: int| 0 <= i < b - a implies !is_whitespace_char(#[trigger] t[i]) by {
            assert(t[i] == s@[a + i]);
        }
        if b < n {
            assert(t[b - a] == s@[b as int]);
        }
        lemma_lead_non_ws(t, b - a);
    }
    Some(s.substring_char(a, b))
}

/// The store error a database failure message becomes: a capacity guard's
/// limit (its current count one past the maximum, saturating), or the
/// message itself.
pub open spec fn database_error(e: StoreError, message: Seq<char>) -> bool {
    match capacity_of(message) {
        Some((limit, max)) => e matches StoreError::CapacityExceeded { limit: l, max: m, current } && l@ == limit
            && m == max && current == (if max == usize::MAX { max } else { max + 1 }),
        None => e matches StoreError::Database { message: m } && m@ == message,
    }
}

/// The store error for a database failure with this message.
pub fn store_error_from_database(message: &str) -> (e: StoreError)
    ensures
        database_error(e, message@),
{
    match parse_capacity_error(message) {
        Some((limit, max)) => StoreError::CapacityExceeded { limit, max, current: max.saturating_add(1) },
        None => StoreError::Database { message: message.to_owned() },
    }
}

/// What the store needs to know of a failed database statement.
#[derive(Debug, Clone, PartialEq, Eq)]
pub struct DatabaseFailure {
    /// The failure is a constraint violation reported by SQLite.
    pub constraint_violation: bool,
    /// SQLite's own message for the failure, when it gave one.
    pub sqlite_message: Option<String>,
    /// The failure's full display text.
    pub display: String,
}

/// The store error an insert failure becomes: a capacity guard's limit, a
/// duplicate id for another constraint violation, the database failure
/// otherwise.
pub open spec fn insert_error(e: StoreError, field: Seq<char>, value: Seq<char>, f: DatabaseFailure) -> bool {
    if capacity_of(f.display@) is Some || !f.constraint_violation {
        database_error(e, f.display@)
    } else {
        e matches StoreError::DuplicateId { field: fi, value: v } && fi@ == field && v@ == value
    }
}

/// Map an insert failure to the store error reported for it.
pub fn map_insert_error(field: &'static str, value: &str, f: &DatabaseFailure) -> (e: StoreError)
    ensures
        insert_error(e, field@, value@, *f),
{
    if parse_capacity_error(f.display.as_str()).is_some() || !f.constraint_violation {
        return store_error_from_database(f.display.as_str());
    }
    StoreError::DuplicateId { field, value: value.to_owned() }
}

/// The store error a Brain insert failure becomes: a second Personal Brain
/// for one owner, a duplicate Brain id for another constraint violation, the
/// database failure otherwise.
pub open spec fn brain_insert_error(e: StoreError, brain_id: Seq<char>, kind: BrainKind, f: DatabaseFailure) -> bool {
    if f.constraint_violation && kind == BrainKind::Personal && (f.sqlite_message matches Some(m) && contains(
        m@,
        "brains.owner_user_id"@,
    )) {
        is_broken(e, "user already has a personal brain"@)
    } else if f.constraint_violation {
        e matches StoreError::DuplicateId { field: fi, value: v } && fi@ == "brain_id"@ && v@ == brain_id
    } else {
        database_error(e, f.display@)
    }
}

/// Map a Brain insert failure to the store error reported for it.
pub fn map_brain_insert_error(brain_id: &str, kind: BrainKind, f: &DatabaseFailure) -> (e: StoreError)
    ensures
        brain_insert_error(e, brain_id@, kind, *f),
{
    let owner_clash = match &f.sqlite_message {
        Some(m) => text_contains(m.as_str(), "brains.owner_user_id"),
        None => false,
    };
    if f.constraint_violation && kind == BrainKind::Personal && owner_clash {
        return broken("user already has a personal brain");
    }
    if f.constraint_violation {
        return StoreError::DuplicateId { field: "brain_id", value: brain_id.to_owned() };
    }
    store_error_from_database(f.display.as_str())
}

/// SQLite reported a uniqueness violation.
pub open spec fn unique_violation(f: DatabaseFailure) -> bool {
    f.sqlite_message matches Some(m) && contains(m@, "UNIQUE constraint failed"@)
}

/// The store error an Approval request insert failure becomes: a reused
/// nonce is a conflict; any other failure maps as an insert of the request id.
pub open spec fn approval_request_insert_error(e: StoreError, request_id: Seq<char>, f: DatabaseFailure) -> bool {
    if unique_violation(f) && !(f.sqlite_message matches Some(m) && contains(m@, "brain_approval_requests.id"@)) {
        is_conflict(e, "approval request nonce already exists"@)
    } else {
        insert_error(e, "brain_approval_request_id"@, request_id, f)
    }
}

fn message_contains(f: &DatabaseFailure, pat: &str) -> (r: bool)
    ensures
        r == (f.sqlite_message matches Some(m) && contains(m@, pat@)),
{
    match &f.sqlite_message {
        Some(m) => text_contains(m.as_str(), pat),
        None => false,
    }
}

/// Map an Approval request insert failure.
pub fn map_approval_request_insert_error(request_id: &str, f: &DatabaseFailure) -> (e: StoreError)
    ensures
        approval_request_insert_error(e, request_id@, *f),
{
    if message_contains(f, "UNIQUE constraint failed") && !message_contains(f, "brain_approval_requests.id") {
        return StoreError::Conflict { reason: "approval request nonce already exists".to_owned(), current_revision: None };
    }
    map_insert_error("brain_approval_request_id", request_id, f)
}

/// Map a failure to record a consumed Approval nonce: a replayed nonce is a
/// conflict.
pub fn map_approval_nonce_error(f: &DatabaseFailure) -> (e: StoreError)
    ensures
        if unique_violation(*f) {
            is_conflict(e, "approval nonce was already applied"@)
        } else {
            database_error(e, f.display@)
        },
{
    if message_contains(f, "UNIQUE constraint failed") {
        return StoreError::Conflict { reason: "approval nonce was already applied".to_owned(), current_revision: None };
    }
    store_error_from_database(f.display.as_str())
}

} // verus!
