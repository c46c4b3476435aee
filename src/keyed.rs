use std::collections::HashMap;
use std::hash::Hash;
use vstd::prelude::*;
use vstd::std_specs::hash::obeys_key_model;

use crate::capability::Mimetize;

verus! {

broadcast use vstd::std_specs::hash::group_hash_axioms;

/// `v` is an outcome of running `f` on `c`, a clone of the key `k`.
pub open spec fn computed<I: Clone, O, F: Fn(I) -> O>(f: F, k: I, c: I, v: O) -> bool {
    cloned(k, c) && f.ensures((c,), v)
}

/// `v` is an outcome of running `f` on some clone of the key `k`.
pub open spec fn computes<I: Clone, O, F: Fn(I) -> O>(f: F, k: I, v: O) -> bool {
    exists|c: I| #[trigger] computed(f, k, c, v)
}

/// `b` is a clone of `a`, variant for variant.
pub open spec fn result_cloned<V: Clone, E: Clone>(a: Result<V, E>, b: Result<V, E>) -> bool {
    match (a, b) {
        (Ok(x), Ok(y)) => cloned(x, y),
        (Err(x), Err(y)) => cloned(x, y),
        _ => false,
    }
}

/// Memoizes a computation of one argument: each distinct key is computed
/// once, and later requests for it replay the recorded result.
#[verifier::reject_recursive_types(I)]
#[verifier::reject_recursive_types(O)]
pub struct HashMimetize<I: Hash + Eq + Clone, O: Clone, F: Fn(I) -> O> {
    args: HashMap<I, O>,
    f: F,
    inputs: Ghost<Map<I, I>>,
    evaluations: Ghost<nat>,
    failures: Ghost<nat>,
}

impl<I: Hash + Eq + Clone, O: Clone, F: Fn(I) -> O> View for HashMimetize<I, O, F> {
    type V = Map<I, O>;

    closed spec fn view(&self) -> Map<I, O> {
        self.args@
    }
}

impl<I: Hash + Eq + Clone, O: Clone, F: Fn(I) -> O> HashMimetize<I, O, F> {
    /// The wrapped computation.
    pub closed spec fn computation(&self) -> F {
        self.f
    }

    /// The clone of key `k` that the computation was run on to produce the
    /// recorded result for `k`.
    pub closed spec fn input_of(&self, k: I) -> I {
        self.inputs@[k]
    }

    /// How many times the wrapped computation has run.
    pub closed spec fn evaluations(&self) -> nat {
        self.evaluations@
    }

    /// How many of those runs failed and left nothing recorded.
    pub closed spec fn failures(&self) -> nat {
        self.failures@
    }

    /// Keys hash and compare consistently, the computation accepts every
    /// input, each recorded result came from one run of the computation on
    /// a clone of its key, and every run is either recorded or a failure.
    pub open spec fn wf(&self) -> bool {
        &&& obeys_key_model::<I>()
        &&& forall|c: I| #[trigger] self.computation().requires((c,))
        &&& forall|k: I| #[trigger]
            self@.contains_key(k) ==> computed(self.computation(), k, self.input_of(k), self@[k])
        &&& self.evaluations() == self@.len() + self.failures()
    }

    /// Wraps `f` with an empty store.
    pub fn new(f: F) -> (r: Self)
        requires
            obeys_key_model::<I>(),
            forall|c: I| #[trigger] f.requires((c,)),
        ensures
            r.wf(),
            r@ == Map::<I, O>::empty(),
            r.computation() == f,
            r.evaluations() == 0,
            r.failures() == 0,
    {
        HashMimetize {
            args: HashMap::new(),
            f,
            inputs: Ghost(Map::empty()),
            evaluations: Ghost(0),
            failures: Ghost(0),
        }
    }

    /// What `call(i)` does beyond the shared contract: a hit runs nothing, a
    /// miss runs the computation once and records exactly its result.
    pub open spec fn served(self, i: I, after: Self, r: O) -> bool {
        &&& after.wf()
        &&& after@.contains_key(i)
        &&& cloned(after@[i], r)
        &&& after.computation() == self.computation()
        &&& after.failures() == self.failures()
        &&& self@.contains_key(i) ==> after == self
        &&& !self@.contains_key(i) ==> {
            &&& after@ == self@.insert(i, after@[i])
            &&& computed(self.computation(), i, after.input_of(i), after@[i])
            &&& forall|j: I| j != i ==> #[trigger] after.input_of(j) == self.input_of(j)
            &&& after.evaluations() == self.evaluations() + 1
        }
    }

    /// Requests `i`: a hit hands back a clone of the recorded result without
    /// running the computation; a miss runs it once on `i`, records the
    /// result and hands back a clone of it.
    pub fn call(&mut self, i: I) -> (r: O)
        requires
            old(self).wf(),
        ensures
            old(self).served(i, *final(self), r),
    {
        match self.args.get(&i) {
            Some(v) => {
                return v.clone();
            },
            None => {},
        }
        let ghost k = i;
        let c = i.clone();
        assert(self.computation().requires((c,)));
        let ghost arg = c;
        let v = (self.f)(c);
        let r = v.clone();
        self.args.insert(i, v);
        proof {
            self.inputs@ = self.inputs@.insert(k, arg);
            self.evaluations@ = self.evaluations@ + 1;
        }
        r
    }
}

impl<I: Hash + Eq + Clone, V: Clone, E: Clone, F: Fn(I) -> Result<V, E>> HashMimetize<
    I,
    Result<V, E>,
    F,
> {
    /// What `try_call(i)` does: a hit replays the recorded result; a miss
    /// runs the computation once, records a success and hands back a clone
    /// of it, and hands back a failure as it came without recording it.
    pub open spec fn try_served(self, i: I, after: Self, r: Result<V, E>) -> bool {
        &&& after.wf()
        &&& after.computation() == self.computation()
        &&& self@.contains_key(i) ==> after == self && result_cloned(self@[i], r)
        &&& !self@.contains_key(i) ==> {
            &&& after.evaluations() == self.evaluations() + 1
            &&& r is Ok ==> {
                &&& after@ == self@.insert(i, after@[i])
                &&& after@[i] is Ok
                &&& computed(self.computation(), i, after.input_of(i), after@[i])
                &&& forall|j: I| j != i ==> #[trigger] after.input_of(j) == self.input_of(j)
                &&& result_cloned(after@[i], r)
                &&& after.failures() == self.failures()
            }
            &&& r is Err ==> {
                &&& after@ == self@
                &&& forall|j: I| #[trigger] after.input_of(j) == self.input_of(j)
                &&& computes(self.computation(), i, r)
                &&& after.failures() == self.failures() + 1
            }
        }
    }

    /// Requests `i` from a computation that may fail. Successes are
    /// memoized; a failure is handed back and not recorded, so a later
    /// request for the same key runs the computation again.
    pub fn try_call(&mut self, i: I) -> (r: Result<V, E>)
        requires
            old(self).wf(),
        ensures
            old(self).try_served(i, *final(self), r),
    {
        match self.args.get(&i) {
            Some(Ok(v)) => {
                return Ok(v.clone());
            },
            Some(Err(e)) => {
                return Err(e.clone());
            },
            None => {},
        }
        let ghost k = i;
        let c = i.clone();
        assert(self.computation().requires((c,)));
        let ghost arg = c;
        let out = (self.f)(c);
        assert(computed(self.f, k, arg, out));
        proof {
            self.evaluations@ = self.evaluations@ + 1;
        }
        match out {
            Ok(v) => {
                let r = v.clone();
                self.args.insert(i, Ok(v));
                proof {
                    self.inputs@ = self.inputs@.insert(k, arg);
                }
                Ok(r)
            },
            Err(e) => {
                proof {
                    self.failures@ = self.failures@ + 1;
                }
                Err(e)
            },
        }
    }
}

impl<I: Hash + Eq + Clone, O: Clone, F: Fn(I) -> O> Mimetize<I, O> for HashMimetize<I, O, F> {
    open spec fn inv(&self) -> bool {
        self.wf()
    }

    open spec fn answered(&self, i: I) -> bool {
        self@.contains_key(i)
    }

    open spec fn answer(&self, i: I) -> O {
        self@[i]
    }

    fn call(&mut self, i: I) -> (r: O) {
        HashMimetize::call(self, i)
    }
}

} // verus!

verus! {

/// A hit returns the computed value unchanged: requesting `k` twice leaves
/// the cache as the first request left it, the computation has run at most
/// once for `k` (and only if `k` was new), and both results are clones of
/// the one value it computed for `k`.
pub proof fn lemma_hit_returns_computed_value<I: Hash + Eq + Clone, O: Clone, F: Fn(I) -> O>(
    s0: HashMimetize<I, O, F>,
    k: I,
    s1: HashMimetize<I, O, F>,
    r1: O,
    s2: HashMimetize<I, O, F>,
    r2: O,
)
    requires
        s0.wf(),
        s0.served(k, s1, r1),
        s1.served(k, s2, r2),
    ensures
        s2 == s1,
        s2.evaluations() == s0.evaluations() + if s0@.contains_key(k) {
            0int
        } else {
            1int
        },
        computed(s0.computation(), k, s2.input_of(k), s2@[k]),
        cloned(s2@[k], r1),
        cloned(s2@[k], r2),
        (forall|a: O, b: O| #[trigger] cloned(a, b) ==> a == b) ==> r1 == r2,
{
}

/// Every recorded result is the computation's result on a clone of its key.
pub proof fn lemma_recorded_results_computed<I: Hash + Eq + Clone, O: Clone, F: Fn(I) -> O>(
    c: HashMimetize<I, O, F>,
)
    requires
        c.wf(),
    ensures
        forall|k: I| #[trigger]
            c@.contains_key(k) ==> computed(c.computation(), k, c.input_of(k), c@[k]),
{
}

/// The computation runs exactly once per distinct recorded key, plus once
/// per failed attempt: a cache whose computation never failed has run it
/// exactly as many times as it holds keys, however often each was requested.
pub proof fn lemma_one_evaluation_per_key<I: Hash + Eq + Clone, O: Clone, F: Fn(I) -> O>(
    c: HashMimetize<I, O, F>,
)
    requires
        c.wf(),
    ensures
        c.evaluations() == c@.len() + c.failures(),
        c.failures() == 0 ==> c.evaluations() == c@.dom().len(),
{
}

/// A failure is not memoized: after a failed first attempt for `k`, nothing
/// is recorded for `k`, and the next request for `k` runs the computation
/// again; if that run succeeds, its result is recorded.
pub proof fn lemma_failure_not_memoized<
    I: Hash + Eq + Clone,
    V: Clone,
    E: Clone,
    F: Fn(I) -> Result<V, E>,
>(
    s0: HashMimetize<I, Result<V, E>, F>,
    k: I,
    s1: HashMimetize<I, Result<V, E>, F>,
    r1: Result<V, E>,
    s2: HashMimetize<I, Result<V, E>, F>,
    r2: Result<V, E>,
)
    requires
        !s0@.contains_key(k),
        s0.try_served(k, s1, r1),
        r1 is Err,
        s1.try_served(k, s2, r2),
    ensures
        !s1@.contains_key(k),
        s1@ == s0@,
        s2.evaluations() == s0.evaluations() + 2,
        r2 is Ok ==> {
            &&& s2@ == s0@.insert(k, s2@[k])
            &&& computed(s0.computation(), k, s2.input_of(k), s2@[k])
            &&& result_cloned(s2@[k], r2)
        },
        r2 is Err ==> !s2@.contains_key(k),
{
}

} // verus!
