//! The first failing check of a sequence, which a validator that stops at
//! its first failure reports.
use vstd::prelude::*;

verus! {

/// The reason the first element that fails `check` fails, if any fails.
pub open spec fn first_fault<A>(s: Seq<A>, check: spec_fn(A) -> Option<Seq<char>>) -> Option<
    Seq<char>,
>
    decreases s.len(),
{
    if s.len() == 0 {
        None
    } else if check(s[0]) is Some {
        check(s[0])
    } else {
        first_fault(s.drop_first(), check)
    }
}

pub proof fn lemma_first_fault_start<A>(s: Seq<A>, check: spec_fn(A) -> Option<Seq<char>>)
    ensures
        first_fault(s.skip(0), check) == first_fault(s, check),
{
    assert(s.skip(0) =~= s);
}

pub proof fn lemma_first_fault_step<A>(s: Seq<A>, check: spec_fn(A) -> Option<Seq<char>>, i: int)
    requires
        0 <= i < s.len(),
    ensures
        first_fault(s.skip(i), check) == if check(s[i]) is Some {
            check(s[i])
        } else {
            first_fault(s.skip(i + 1), check)
        },
{
    assert(s.skip(i).drop_first() =~= s.skip(i + 1));
}

pub proof fn lemma_first_fault_end<A>(s: Seq<A>, check: spec_fn(A) -> Option<Seq<char>>)
    ensures
        first_fault(s.skip(s.len() as int), check) is None,
{
    assert(s.skip(s.len() as int).len() == 0);
}

/// No element fails exactly when there is no first failure.
pub proof fn lemma_first_fault_none<A>(s: Seq<A>, check: spec_fn(A) -> Option<Seq<char>>)
    ensures
        first_fault(s, check) is None <==> forall|i: int| 0 <= i < s.len() ==> check(s[i]) is None,
    decreases s.len(),
{
    if s.len() > 0 {
        lemma_first_fault_none(s.drop_first(), check);
        if check(s[0]) is None {
            assert forall|i: int| 1 <= i < s.len() implies s[i] == s.drop_first()[i - 1] by {}
            if first_fault(s, check) is None {
                assert forall|i: int| 0 <= i < s.len() implies check(s[i]) is None by {
                    if i > 0 {
                        assert(s[i] == s.drop_first()[i - 1]);
                    }
                }
            }
        }
    }
}

} // verus!
