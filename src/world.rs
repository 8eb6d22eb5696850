//! The world: a population of particles, its clock and its random source.
use vstd::prelude::*;
use crate::particle::{Particle, stepped, is_newborn, alpha_in_range, lemma_fade_bounds, FULL};
use crate::random::{seeded, draw_between};

verus! {

/// The largest change of population in one tick, either way.
pub const MAX_CHURN: i64 = 3;

/// Why a world could not be built.
#[derive(Clone, Copy, Debug, PartialEq, Eq, Structural)]
pub enum WorldError {
    /// The spawn region has a negative width or height.
    NegativeBounds,
    /// A given particle is fully transparent or more than opaque.
    AlphaOutOfRange,
}

/// What a world holds, apart from its random source.
pub struct WorldState {
    pub tick: u64,
    pub width: i64,
    pub height: i64,
    pub particles: Seq<Particle>,
}

pub struct World {
    tick: u64,
    width: i64,
    height: i64,
    particles: Vec<Particle>,
    rng: rand::rngs::StdRng,
}

impl View for World {
    type V = WorldState;

    closed spec fn view(&self) -> WorldState {
        WorldState {
            tick: self.tick,
            width: self.width,
            height: self.height,
            particles: self.particles@,
        }
    }
}

/// Every particle of `s` is visible and at most opaque.
pub open spec fn all_alpha_in_range(s: Seq<Particle>) -> bool {
    forall|i: int| 0 <= i < s.len() ==> alpha_in_range(#[trigger] s[i].color.a as int)
}

/// `p` is a particle spawned in the given bounds and then advanced one tick.
pub open spec fn is_newborn_stepped(p: Particle, width: int, height: int) -> bool {
    exists|q: Particle| is_newborn(q, width, height) && p == #[trigger] stepped(q)
}

/// The particles that outlive the population change `n` of a tick: all of
/// them when `n` is positive, else all but the `-n` oldest.
pub open spec fn survivors(s: Seq<Particle>, n: int) -> Seq<Particle> {
    if n > 0 {
        s
    } else {
        s.skip(if -n < s.len() { -n } else { s.len() as int })
    }
}

/// The population changes by at most `MAX_CHURN` either way in a tick whose
/// draw lies in `[-MAX_CHURN, MAX_CHURN]`, and never drops below zero.
pub proof fn lemma_population_delta(s: WorldState, next: WorldState, n: int)
    requires
        -MAX_CHURN <= n <= MAX_CHURN,
        s.advanced(next, n),
    ensures
        s.particles.len() - MAX_CHURN <= next.particles.len() <= s.particles.len() + MAX_CHURN,
        next.particles.len() >= 0,
{
}

/// Over a tick, no particle's opacity rises, and every opacity stays visible
/// and at most full.
pub proof fn lemma_alpha_non_increasing(s: WorldState, next: WorldState, n: int)
    requires
        s.wf(),
        s.advanced(next, n),
    ensures
        next.wf(),
        forall|i: int|
            0 <= i < survivors(s.particles, n).len() ==> (#[trigger] next.particles[i]).color.a
                <= survivors(s.particles, n)[i].color.a,
{
    let kept = survivors(s.particles, n);
    assert forall|i: int| 0 <= i < kept.len() implies (#[trigger] next.particles[i]).color.a
        <= kept[i].color.a && alpha_in_range(next.particles[i].color.a as int) by {
        assert(alpha_in_range(kept[i].color.a as int));
        lemma_fade_bounds(kept[i].color.a as int);
    }
    assert forall|i: int| kept.len() <= i < next.particles.len() implies alpha_in_range(
        (#[trigger] next.particles[i]).color.a as int,
    ) by {
        assert(is_newborn_stepped(next.particles[i], s.width as int, s.height as int));
        let q = choose|q: Particle| is_newborn(q, s.width as int, s.height as int) && next.particles[i] == stepped(q);
        lemma_fade_bounds(q.color.a as int);
    }
    assert(all_alpha_in_range(next.particles));
}

/// Retiring one particle from a non-empty population takes exactly the oldest
/// one, whatever the opacities of the head and of the others.
pub proof fn lemma_head_removal(s: Seq<Particle>)
    requires
        s.len() > 0,
    ensures
        survivors(s, -1) == s.subrange(1, s.len() as int),
        survivors(s, -1).len() == s.len() - 1,
{
    assert(s.skip(1) =~= s.subrange(1, s.len() as int));
}

/// `|n|`.
pub open spec fn magnitude_of(n: i32) -> int {
    if n < 0 {
        -n
    } else {
        n as int
    }
}

impl WorldState {
    pub open spec fn wf(self) -> bool {
        &&& self.width >= 0
        &&& self.height >= 0
        &&& all_alpha_in_range(self.particles)
    }

    /// `next` is this state one tick later, when the tick's draw was `n`:
    /// the survivors advanced in their order, then `n` newborn particles,
    /// also advanced.
    pub open spec fn advanced(self, next: WorldState, n: int) -> bool {
        let kept = survivors(self.particles, n);
        let born: int = if n > 0 { n } else { 0 };
        &&& next.tick == self.tick + 1
        &&& next.width == self.width
        &&& next.height == self.height
        &&& next.particles.len() == kept.len() + born
        &&& forall|i: int| 0 <= i < kept.len() ==> next.particles[i] == stepped(#[trigger] kept[i])
        &&& forall|i: int|
            kept.len() <= i < next.particles.len() ==> is_newborn_stepped(
                #[trigger] next.particles[i],
                self.width as int,
                self.height as int,
            )
    }
}

/// Relies on `Vec::shrink_to_fit`: it frees spare capacity and leaves the
/// elements as they were.
#[verifier::external_body]
fn compact(v: &mut Vec<Particle>)
    ensures
        final(v)@ == old(v)@,
{
    v.shrink_to_fit()
}

/// `|n|`, which fits an `i64` for every `i32`.
fn magnitude(n: i32) -> (r: i64)
    ensures
        r >= 0,
        r == magnitude_of(n),
{
    if n < 0 {
        -(n as i64)
    } else {
        n as i64
    }
}

impl World {
    pub open spec fn wf(&self) -> bool {
        self@.wf()
    }

    /// The state of the world's random source.
    pub closed spec fn source(&self) -> rand::rngs::StdRng {
        self.rng
    }

    /// A world at tick zero over the given particles, whose random source is
    /// fixed by `seed`. Fails when a bound is negative, or else when a
    /// particle's opacity is zero or above full.
    pub fn with_particles(width: i64, height: i64, seed: u64, particles: Vec<Particle>) -> (r:
        Result<World, WorldError>)
        ensures
            (width < 0 || height < 0) <==> r == Err::<World, WorldError>(
                WorldError::NegativeBounds,
            ),
            (width >= 0 && height >= 0 && !all_alpha_in_range(particles@)) <==> r == Err::<
                World,
                WorldError,
            >(WorldError::AlphaOutOfRange),
            r is Ok <==> (width >= 0 && height >= 0 && all_alpha_in_range(particles@)),
            r is Ok ==> r->Ok_0.wf() && r->Ok_0@ == (WorldState {
                tick: 0,
                width,
                height,
                particles: particles@,
            }),
    {
        if width < 0 || height < 0 {
            return Err(WorldError::NegativeBounds);
        }
        let mut i: usize = 0;
        while i < particles.len()
            invariant
                0 <= i <= particles@.len(),
                width >= 0,
                height >= 0,
                forall|j: int| 0 <= j < i ==> alpha_in_range(#[trigger] particles@[j].color.a as int),
            decreases particles@.len() - i,
        {
            let a = particles[i].color.a;
            if a == 0 || a > FULL {
                assert(!alpha_in_range(particles@[i as int].color.a as int));
                return Err(WorldError::AlphaOutOfRange);
            }
            i = i + 1;
        }
        Ok(World { tick: 0, width, height, particles, rng: seeded(seed) })
    }

    /// An empty world at tick zero whose random source is fixed by `seed`.
    /// Fails when a bound is negative.
    pub fn new(width: i64, height: i64, seed: u64) -> (r: Result<World, WorldError>)
        ensures
            (width < 0 || height < 0) <==> r == Err::<World, WorldError>(
                WorldError::NegativeBounds,
            ),
            r is Ok <==> (width >= 0 && height >= 0),
            r is Ok ==> r->Ok_0.wf() && r->Ok_0@ == (WorldState {
                tick: 0,
                width,
                height,
                particles: Seq::empty(),
            }),
    {
        let r = World::with_particles(width, height, seed, Vec::new());
        assert(all_alpha_in_range(Seq::<Particle>::empty()));
        r
    }

    /// Spawns `|n|` particles after the existing ones.
    pub fn add_shapes(&mut self, n: i32)
        requires
            old(self).wf(),
        ensures
            final(self).wf(),
            final(self)@.tick == old(self)@.tick,
            final(self)@.width == old(self)@.width,
            final(self)@.height == old(self)@.height,
            final(self)@.particles.len() == old(self)@.particles.len() + if n < 0 {
                -n
            } else {
                n as int
            },
            final(self)@.particles.subrange(0, old(self)@.particles.len() as int)
                == old(self)@.particles,
            forall|i: int|
                old(self)@.particles.len() <= i < final(self)@.particles.len() ==> is_newborn(
                    #[trigger] final(self)@.particles[i],
                    old(self)@.width as int,
                    old(self)@.height as int,
                ),
    {
        let count = magnitude(n);
        let ghost before = self.particles@;
        let mut k: i64 = 0;
        while k < count
            invariant
                0 <= k <= count,
                self.wf(),
                self.tick == old(self).tick,
                self.width == old(self).width,
                self.height == old(self).height,
                self.particles@.len() == before.len() + k,
                self.particles@.subrange(0, before.len() as int) == before,
                forall|i: int|
                    before.len() <= i < self.particles@.len() ==> is_newborn(
                        #[trigger] self.particles@[i],
                        self.width as int,
                        self.height as int,
                    ),
            decreases count - k,
        {
            let p = Particle::new(&mut self.rng, self.width, self.height);
            self.particles.push(p);
            assert(self.particles@.subrange(0, before.len() as int) =~= before);
            k = k + 1;
        }
    }

    /// Runs one tick whose population change was drawn as `n`: spawns `n`
    /// particles when `n` is positive, else retires `-n`; then frees spare
    /// room, advances every particle in order, and counts the tick.
    pub fn update_with(&mut self, n: i32)
        requires
            old(self).wf(),
            -MAX_CHURN <= n <= MAX_CHURN,
            old(self)@.tick < u64::MAX,
        ensures
            final(self).wf(),
            old(self)@.advanced(final(self)@, n as int),
    {
        let ghost start = self@;
        if n > 0 {
            self.add_shapes(n);
        } else {
            self.remove_shapes(n);
        }
        compact(&mut self.particles);
        let ghost mid = self.particles@;
        let mut i: usize = 0;
        while i < self.particles.len()
            invariant
                0 <= i <= mid.len(),
                self.particles@.len() == mid.len(),
                self.tick == start.tick,
                self.width == start.width,
                self.height == start.height,
                all_alpha_in_range(mid),
                forall|j: int| 0 <= j < i ==> self.particles@[j] == stepped(#[trigger] mid[j]),
                forall|j: int| i <= j < mid.len() ==> self.particles@[j] == #[trigger] mid[j],
            decreases mid.len() - i,
        {
            self.particles[i].update();
            i = i + 1;
        }
        self.tick = self.tick + 1;
        proof {
            let kept = survivors(start.particles, n as int);
            if n > 0 {
                assert(mid.subrange(0, start.particles.len() as int) == start.particles);
                assert forall|j: int| 0 <= j < kept.len() implies self.particles@[j] == stepped(
                    #[trigger] kept[j],
                ) by {
                    assert(kept[j] == mid.subrange(0, start.particles.len() as int)[j]);
                }
                assert forall|j: int| kept.len() <= j < self.particles@.len() implies is_newborn_stepped(
                    #[trigger] self.particles@[j],
                    start.width as int,
                    start.height as int,
                ) by {
                    assert(is_newborn(mid[j], start.width as int, start.height as int));
                    assert(self.particles@[j] == stepped(mid[j]));
                }
            } else {
                assert(mid == kept);
            }
            lemma_alpha_non_increasing(start, self@, n as int);
        }
    }

    /// Runs one tick: draws the population change from `[-MAX_CHURN,
    /// MAX_CHURN]` with the world's random source and applies it as
    /// `update_with` does.
    pub fn update(&mut self)
        requires
            old(self).wf(),
            old(self)@.tick < u64::MAX,
        ensures
            final(self).wf(),
            exists|n: int| -MAX_CHURN <= n <= MAX_CHURN && old(self)@.advanced(final(self)@, n),
            old(self)@.particles.len() - MAX_CHURN <= final(self)@.particles.len()
                <= old(self)@.particles.len() + MAX_CHURN,
    {
        let n = draw_between(&mut self.rng, -MAX_CHURN, MAX_CHURN);
        self.update_with(n as i32);
        proof {
            lemma_population_delta(old(self)@, self@, n as int);
        }
    }

    /// The number of ticks run so far.
    pub fn tick(&self) -> (r: u64)
        ensures
            r == self@.tick,
    {
        self.tick
    }

    /// The width of the spawn region.
    pub fn width(&self) -> (r: i64)
        ensures
            r == self@.width,
    {
        self.width
    }

    /// The height of the spawn region, which is where particles are born.
    pub fn height(&self) -> (r: i64)
        ensures
            r == self@.height,
    {
        self.height
    }

    /// The live particles, oldest first.
    pub fn particles(&self) -> (r: &[Particle])
        ensures
            r@ == self@.particles,
    {
        self.particles.as_slice()
    }

    /// Retires `|n|` particles, or all of them if there are fewer. Each time
    /// the oldest particle goes, however faded it or any other particle is.
    pub fn remove_shapes(&mut self, n: i32)
        requires
            old(self).wf(),
        ensures
            final(self).wf(),
            final(self)@.tick == old(self)@.tick,
            final(self)@.width == old(self)@.width,
            final(self)@.height == old(self)@.height,
            final(self)@.particles == survivors(old(self)@.particles, -magnitude_of(n)),
            final(self).source() == old(self).source(),
    {
        let count = magnitude(n);
        let ghost before = self.particles@;
        let mut k: i64 = 0;
        while k < count
            invariant
                0 <= k <= count,
                count == magnitude_of(n),
                self.wf(),
                self.rng == old(self).rng,
                self.tick == old(self).tick,
                self.width == old(self).width,
                self.height == old(self).height,
                self.particles@ == before.skip(if k < before.len() { k as int } else { before.len() as int }),
            decreases count - k,
        {
            if self.particles.len() > 0 {
                self.particles.remove(0);
            }
            k = k + 1;
        }
    }
}

} // verus!
