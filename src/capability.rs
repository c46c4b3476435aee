use vstd::prelude::*;

verus! {

/// A mutable cache that answers `call(i)` and memoizes per its own fill policy.
///
/// Every implementation records an answer for each input it has served,
/// keeps recorded answers unchanged, and hands out a clone of the recorded
/// answer.
pub trait Mimetize<I, O: Clone>: Sized {
    /// The cache's internal consistency.
    spec fn inv(&self) -> bool;

    /// Whether an answer for `i` is already recorded.
    spec fn answered(&self, i: I) -> bool;

    /// The recorded answer for `i` (meaningful when `answered(i)`).
    spec fn answer(&self, i: I) -> O;

    fn call(&mut self, i: I) -> (r: O)
        requires
            old(self).inv(),
        ensures
            final(self).inv(),
            final(self).answered(i),
            cloned(final(self).answer(i), r),
            old(self).answered(i) ==> *final(self) == *old(self),
            forall|j: I| #[trigger]
                old(self).answered(j) ==> final(self).answered(j) && final(self).answer(j)
                    == old(self).answer(j),
    ;
}

/// `after` and `r` are a possible outcome of `before.call(i)`, as the
/// contract of `Mimetize::call` states it: the answer
/// for `i` is recorded and `r` is a clone of it, a hit changes nothing, and
/// no recorded answer is ever changed or dropped.
pub open spec fn replays<I, O: Clone, M: Mimetize<I, O>>(before: M, i: I, after: M, r: O) -> bool {
    &&& after.inv()
    &&& after.answered(i)
    &&& cloned(after.answer(i), r)
    &&& before.answered(i) ==> after == before
    &&& forall|j: I| #[trigger]
        before.answered(j) ==> after.answered(j) && after.answer(j) == before.answer(j)
}

/// Requesting the same input again replays: the second request leaves the
/// cache as the first left it, and both results are clones of one recorded
/// answer.
pub proof fn lemma_replay_is_stable<I, O: Clone, M: Mimetize<I, O>>(
    s0: M,
    i: I,
    s1: M,
    r1: O,
    s2: M,
    r2: O,
)
    requires
        replays(s0, i, s1, r1),
        replays(s1, i, s2, r2),
    ensures
        s2 == s1,
        cloned(s1.answer(i), r1),
        cloned(s1.answer(i), r2),
        (forall|a: O, b: O| #[trigger] cloned(a, b) ==> a == b) ==> r1 == r2,
{
}

} // verus!
