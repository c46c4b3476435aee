use std::marker::PhantomData;

use rand::rngs::StdRng;
use rand::{Rng, SeedableRng};
use vstd::prelude::*;

use crate::capability::Mimetize;

verus! {

#[verifier::external_type_specification]
#[verifier::external_body]
pub struct ExStdRng(StdRng);

/// A `StdRng` together with the seed it was built from and the number of
/// values drawn from it so far. Every value drawn is of type `O`, so the
/// value at each position is a function of the seed and the position.
#[verifier::reject_recursive_types(O)]
pub struct SeededRng<O> {
    rng: StdRng,
    seed: Ghost<Seq<u8>>,
    position: Ghost<nat>,
    marker: PhantomData<O>,
}

impl<O> SeededRng<O> {
    /// The seed the generator was built from.
    pub closed spec fn seed(&self) -> Seq<u8> {
        self.seed@
    }

    /// How many values have been drawn since seeding.
    pub closed spec fn position(&self) -> nat {
        self.position@
    }

    /// Relies on rand::SeedableRng::from_seed for StdRng: a fresh generator
    /// whose whole output stream is determined by the 32 seed bytes.
    #[verifier::external_body]
    pub fn from_seed(seed: [u8; 32]) -> (r: Self)
        ensures
            r.seed() == seed@,
            r.position() == 0,
    {
        SeededRng {
            rng: StdRng::from_seed(seed),
            seed: Ghost(seed@),
            position: Ghost(0),
            marker: PhantomData,
        }
    }
}

/// A value type that a seeded generator produces, one value per step.
pub trait Sample: Sized {
    /// The value of the `n + 1`-th draw from a generator seeded with `seed`.
    spec fn nth(seed: Seq<u8>, n: nat) -> Self;

    fn sample(g: &mut SeededRng<Self>) -> (r: Self)
        ensures
            r == Self::nth(old(g).seed(), old(g).position()),
            final(g).seed() == old(g).seed(),
            final(g).position() == old(g).position() + 1,
    ;
}

/// The value of the `n + 1`-th `bool` drawn from a `StdRng` seeded with `seed`.
pub uninterp spec fn stream_bool(seed: Seq<u8>, n: nat) -> bool;

/// Relies on rand::Rng::random::<bool> on StdRng: the next value of the
/// seeded stream, which depends on the seed and on how many values were
/// drawn before it.
#[verifier::external_body]
fn draw_bool(g: &mut SeededRng<bool>) -> (r: bool)
    ensures
        r == stream_bool(old(g).seed(), old(g).position()),
        final(g).seed() == old(g).seed(),
        final(g).position() == old(g).position() + 1,
{
    g.rng.random()
}

impl Sample for bool {
    open spec fn nth(seed: Seq<u8>, n: nat) -> bool {
        stream_bool(seed, n)
    }

    fn sample(g: &mut SeededRng<bool>) -> (r: bool) {
        draw_bool(g)
    }
}

/// The value of the `n + 1`-th `u8` drawn from a `StdRng` seeded with `seed`.
pub uninterp spec fn stream_u8(seed: Seq<u8>, n: nat) -> u8;

/// Relies on rand::Rng::random::<u8> on StdRng: the next value of the
/// seeded stream, which depends on the seed and on how many values were
/// drawn before it.
#[verifier::external_body]
fn draw_u8(g: &mut SeededRng<u8>) -> (r: u8)
    ensures
        r == stream_u8(old(g).seed(), old(g).position()),
        final(g).seed() == old(g).seed(),
        final(g).position() == old(g).position() + 1,
{
    g.rng.random()
}

impl Sample for u8 {
    open spec fn nth(seed: Seq<u8>, n: nat) -> u8 {
        stream_u8(seed, n)
    }

    fn sample(g: &mut SeededRng<u8>) -> (r: u8) {
        draw_u8(g)
    }
}

/// The value of the `n + 1`-th `u32` drawn from a `StdRng` seeded with `seed`.
pub uninterp spec fn stream_u32(seed: Seq<u8>, n: nat) -> u32;

/// Relies on rand::Rng::random::<u32> on StdRng: the next value of the
/// seeded stream, which depends on the seed and on how many values were
/// drawn before it.
#[verifier::external_body]
fn draw_u32(g: &mut SeededRng<u32>) -> (r: u32)
    ensures
        r == stream_u32(old(g).seed(), old(g).position()),
        final(g).seed() == old(g).seed(),
        final(g).position() == old(g).position() + 1,
{
    g.rng.random()
}

impl Sample for u32 {
    open spec fn nth(seed: Seq<u8>, n: nat) -> u32 {
        stream_u32(seed, n)
    }

    fn sample(g: &mut SeededRng<u32>) -> (r: u32) {
        draw_u32(g)
    }
}

/// The value of the `n + 1`-th `u64` drawn from a `StdRng` seeded with `seed`.
pub uninterp spec fn stream_u64(seed: Seq<u8>, n: nat) -> u64;

/// Relies on rand::Rng::random::<u64> on StdRng: the next value of the
/// seeded stream, which depends on the seed and on how many values were
/// drawn before it.
#[verifier::external_body]
fn draw_u64(g: &mut SeededRng<u64>) -> (r: u64)
    ensures
        r == stream_u64(old(g).seed(), old(g).position()),
        final(g).seed() == old(g).seed(),
        final(g).position() == old(g).position() + 1,
{
    g.rng.random()
}

impl Sample for u64 {
    open spec fn nth(seed: Seq<u8>, n: nat) -> u64 {
        stream_u64(seed, n)
    }

    fn sample(g: &mut SeededRng<u64>) -> (r: u64) {
        draw_u64(g)
    }
}

/// The value of the `n + 1`-th `i32` drawn from a `StdRng` seeded with `seed`.
pub uninterp spec fn stream_i32(seed: Seq<u8>, n: nat) -> i32;

/// Relies on rand::Rng::random::<i32> on StdRng: the next value of the
/// seeded stream, which depends on the seed and on how many values were
/// drawn before it.
#[verifier::external_body]
fn draw_i32(g: &mut SeededRng<i32>) -> (r: i32)
    ensures
        r == stream_i32(old(g).seed(), old(g).position()),
        final(g).seed() == old(g).seed(),
        final(g).position() == old(g).position() + 1,
{
    g.rng.random()
}

impl Sample for i32 {
    open spec fn nth(seed: Seq<u8>, n: nat) -> i32 {
        stream_i32(seed, n)
    }

    fn sample(g: &mut SeededRng<i32>) -> (r: i32) {
        draw_i32(g)
    }
}

/// The value of the `n + 1`-th `i64` drawn from a `StdRng` seeded with `seed`.
pub uninterp spec fn stream_i64(seed: Seq<u8>, n: nat) -> i64;

/// Relies on rand::Rng::random::<i64> on StdRng: the next value of the
/// seeded stream, which depends on the seed and on how many values were
/// drawn before it.
#[verifier::external_body]
fn draw_i64(g: &mut SeededRng<i64>) -> (r: i64)
    ensures
        r == stream_i64(old(g).seed(), old(g).position()),
        final(g).seed() == old(g).seed(),
        final(g).position() == old(g).position() + 1,
{
    g.rng.random()
}

impl Sample for i64 {
    open spec fn nth(seed: Seq<u8>, n: nat) -> i64 {
        stream_i64(seed, n)
    }

    fn sample(g: &mut SeededRng<i64>) -> (r: i64) {
        draw_i64(g)
    }
}

/// Memoizes the output stream of a seeded generator by position: entry `k`
/// of the history is the value of the generator's draw at position
/// `first() + k`, where `first()` is its position at construction.
#[verifier::reject_recursive_types(O)]
pub struct RngState<O> {
    args: Vec<O>,
    seed: SeededRng<O>,
    first: Ghost<nat>,
}

impl<O> View for RngState<O> {
    type V = Seq<O>;

    closed spec fn view(&self) -> Seq<O> {
        self.args@
    }
}

impl<O: Clone + Sample> RngState<O> {
    /// The generator in its current state.
    pub closed spec fn generator(&self) -> SeededRng<O> {
        self.seed
    }

    /// The generator's position when the cache was built.
    pub closed spec fn first(&self) -> nat {
        self.first@
    }

    /// The seed of the wrapped generator.
    pub open spec fn seed(&self) -> Seq<u8> {
        self.generator().seed()
    }

    /// How many times the generator has been stepped.
    pub open spec fn steps(&self) -> nat {
        self.generator().position()
    }

    /// The generator has been stepped once per filled position, and entry
    /// `k` is the generator's draw at position `first() + k`.
    pub open spec fn wf(&self) -> bool {
        &&& self.steps() == self.first() + self@.len()
        &&& forall|k: int|
            0 <= k < self@.len() ==> #[trigger] self@[k] == O::nth(self.seed(), (self.first() + k) as nat)
    }

    /// Wraps a seeded generator with an empty history.
    pub fn new(seed: SeededRng<O>) -> (r: Self)
        ensures
            r.wf(),
            r@ == Seq::<O>::empty(),
            r.generator() == seed,
            r.first() == seed.position(),
    {
        let ghost p = seed.position();
        RngState { args: Vec::new(), seed, first: Ghost(p) }
    }

    /// Number of positions filled so far.
    pub fn len(&self) -> (n: usize)
        ensures
            n == self@.len(),
    {
        self.args.len()
    }

    /// What `call(i)` does beyond the shared contract: the history is
    /// extended, never rewritten, to exactly `i + 1` entries if it was
    /// shorter; each new entry is the generator's next draw, one step each.
    pub open spec fn served(self, i: usize, after: Self, r: O) -> bool {
        &&& after.wf()
        &&& after.seed() == self.seed()
        &&& after.first() == self.first()
        &&& after@.len() == if i < self@.len() {
            self@.len() as int
        } else {
            i + 1
        }
        &&& after@.subrange(0, self@.len() as int) == self@
        &&& forall|k: int|
            self@.len() <= k < after@.len() ==> #[trigger] after@[k] == O::nth(
                self.seed(),
                (self.first() + k) as nat,
            )
        &&& after.steps() == self.steps() + (after@.len() - self@.len())
        &&& cloned(after@[i as int], r)
        &&& i < self@.len() ==> after == self
    }

    /// Answers position `i`, stepping the generator for every position up
    /// to `i` that is not filled yet.
    pub fn call(&mut self, i: usize) -> (r: O)
        requires
            old(self).wf(),
        ensures
            old(self).served(i, *final(self), r),
    {
        if i < self.args.len() {
            assert(self.args@.subrange(0, self.args@.len() as int) =~= self.args@);
            return self.args[i].clone();
        }
        let ghost start = self.args@;
        let ghost s = self.seed.seed();
        let ghost f = self.first@;
        while self.args.len() <= i
            invariant
                start.len() <= self.args@.len() <= i + 1,
                self.args@.subrange(0, start.len() as int) == start,
                self.seed.seed() == s,
                self.first@ == f,
                self.seed.position() == f + self.args@.len(),
                forall|k: int|
                    0 <= k < self.args@.len() ==> #[trigger] self.args@[k] == O::nth(
                        s,
                        (f + k) as nat,
                    ),
            decreases i + 1 - self.args@.len(),
        {
            let v = O::sample(&mut self.seed);
            self.args.push(v);
        }
        self.args[i].clone()
    }
}

impl<O: Clone + Sample> Mimetize<usize, O> for RngState<O> {
    open spec fn inv(&self) -> bool {
        self.wf()
    }

    open spec fn answered(&self, i: usize) -> bool {
        i < self@.len()
    }

    open spec fn answer(&self, i: usize) -> O {
        self@[i as int]
    }

    fn call(&mut self, i: usize) -> (r: O) {
        RngState::call(self, i)
    }
}

} // verus!

verus! {

/// Gap filling: a request for position `i` leaves every position up to `i`
/// filled, keeps the entries already there, fills each new position with
/// the generator's draw at that position, and steps the generator once per
/// newly filled position and never for a filled one. On a fresh cache, a
/// request for `i` fills exactly the `i + 1` positions `0..=i`.
pub proof fn lemma_gap_filling<O: Clone + Sample>(
    s0: RngState<O>,
    i: usize,
    s1: RngState<O>,
    r: O,
)
    requires
        s0.wf(),
        s0.served(i, s1, r),
    ensures
        s1@.len() > i,
        s0@.len() == 0 ==> s1@.len() == i + 1,
        forall|j: int| 0 <= j < s0@.len() ==> s1@[j] == s0@[j],
        forall|j: int|
            0 <= j < s1@.len() ==> #[trigger] s1@[j] == O::nth(s0.seed(), (s0.first() + j) as nat),
        s1.steps() - s0.steps() == s1@.len() - s0@.len(),
        cloned(s1@[i as int], r),
{
    assert forall|j: int| 0 <= j < s0@.len() implies s1@[j] == s0@[j] by {
        assert(s1@.subrange(0, s0@.len() as int)[j] == s1@[j]);
    }
}

/// Once a request has filled position `i`, a later request for any
/// position up to `i` steps nothing, changes nothing, and hands back a
/// clone of the entry that the fill produced.
pub proof fn lemma_filled_positions_replay<O: Clone + Sample>(
    s0: RngState<O>,
    i: usize,
    s1: RngState<O>,
    r1: O,
    j: usize,
    s2: RngState<O>,
    r2: O,
)
    requires
        s0.served(i, s1, r1),
        j <= i,
        s1.served(j, s2, r2),
    ensures
        s2 == s1,
        s2.steps() == s1.steps(),
        cloned(s1@[j as int], r2),
{
}

/// Two caches over generators with the same seed, built at the same
/// position, hold the same entry at every position that both have filled,
/// whatever requests each has served.
pub proof fn lemma_same_seed_same_history<O: Clone + Sample>(a: RngState<O>, b: RngState<O>)
    requires
        a.wf(),
        b.wf(),
        a.seed() == b.seed(),
        a.first() == b.first(),
    ensures
        forall|k: int| 0 <= k < a@.len() && k < b@.len() ==> #[trigger] a@[k] == b@[k],
{
}

/// The value at a position depends neither on the instance nor on the
/// requests served before: requesting `i` from two identically seeded
/// caches, whatever each was asked earlier, records the same entry, and
/// both results are clones of it.
pub proof fn lemma_value_independent_of_request_order<O: Clone + Sample>(
    a0: RngState<O>,
    b0: RngState<O>,
    i: usize,
    a1: RngState<O>,
    ra: O,
    b1: RngState<O>,
    rb: O,
)
    requires
        a0.wf(),
        b0.wf(),
        a0.seed() == b0.seed(),
        a0.first() == b0.first(),
        a0.served(i, a1, ra),
        b0.served(i, b1, rb),
    ensures
        a1@[i as int] == b1@[i as int],
        a1@[i as int] == O::nth(a0.seed(), (a0.first() + i) as nat),
        cloned(a1@[i as int], ra),
        cloned(a1@[i as int], rb),
        (forall|x: O, y: O| #[trigger] cloned(x, y) ==> x == y) ==> ra == rb,
{
}

} // verus!
