//! One particle: its physical state and the rule that advances it by a tick.
use vstd::prelude::*;
use crate::random::draw_between;
use vstd::arithmetic::power::pow;

verus! {

/// One pixel in the fixed-point scale of lengths.
pub const SCALE: i64 = 1_000_000;

/// A colour channel at full intensity.
pub const FULL: u32 = 1_000_000_000;

/// The side of every particle's square.
pub const PARTICLE_SIDE: i64 = 4_000_000;

/// The opacity a particle is born with.
pub const BIRTH_ALPHA: u32 = 990_000_000;

/// Opacity is multiplied by `FADE_NUM / FADE_DEN` every tick.
pub const FADE_NUM: u64 = 995;

pub const FADE_DEN: u64 = 1_000;

/// Acceleration is multiplied by `DAMP_NUM / DAMP_DEN` every tick.
pub const DAMP_NUM: i128 = 7;

pub const DAMP_DEN: i128 = 10;

/// A newborn particle's vertical velocity lies in `[-MAX_RISE, 0)`.
pub const MAX_RISE: i64 = 2_000_000;

/// A newborn particle's vertical acceleration lies in `[0, MAX_LIFT)`.
pub const MAX_LIFT: i64 = 150_000;

/// A point or a vector in the plane.
#[derive(Clone, Copy, Debug, PartialEq, Eq, Structural)]
pub struct Vec2 {
    pub x: i64,
    pub y: i64,
}

/// A colour with its opacity last.
#[derive(Clone, Copy, Debug, PartialEq, Eq, Structural)]
pub struct Rgba {
    pub r: u32,
    pub g: u32,
    pub b: u32,
    pub a: u32,
}

#[derive(Clone, Copy, Debug, PartialEq, Eq, Structural)]
pub struct Particle {
    pub width: i64,
    pub height: i64,
    pub position: Vec2,
    pub velocity: Vec2,
    pub acceleration: Vec2,
    pub color: Rgba,
}

/// `v` pinned to the range of `i64`.
pub open spec fn clamp_i64(v: int) -> int {
    if v > i64::MAX {
        i64::MAX as int
    } else if v < i64::MIN {
        i64::MIN as int
    } else {
        v
    }
}

/// Component-wise sum, each component pinned to the range of `i64`.
pub open spec fn sum_pinned(a: Vec2, b: Vec2) -> Vec2 {
    Vec2 { x: clamp_i64(a.x + b.x) as i64, y: clamp_i64(a.y + b.y) as i64 }
}

/// `a` scaled by `DAMP_NUM / DAMP_DEN`, rounded toward zero.
pub open spec fn damped(a: int) -> int {
    if a >= 0 {
        a * (DAMP_NUM as int) / (DAMP_DEN as int)
    } else {
        -((-a) * (DAMP_NUM as int) / (DAMP_DEN as int))
    }
}

/// Opacity `a` scaled by `FADE_NUM / FADE_DEN`, rounded up, so that a
/// visible particle never becomes exactly transparent.
pub open spec fn faded(a: int) -> int {
    (a * (FADE_NUM as int) + (FADE_DEN as int - 1)) / (FADE_DEN as int)
}

/// The particle one tick later.
pub open spec fn stepped(p: Particle) -> Particle {
    let velocity = sum_pinned(p.velocity, p.acceleration);
    Particle {
        width: p.width,
        height: p.height,
        position: sum_pinned(p.position, velocity),
        velocity,
        acceleration: Vec2 {
            x: damped(p.acceleration.x as int) as i64,
            y: damped(p.acceleration.y as int) as i64,
        },
        color: Rgba { a: faded(p.color.a as int) as u32, ..p.color },
    }
}

/// The particle `k` ticks later.
pub open spec fn stepped_times(p: Particle, k: nat) -> Particle
    decreases k,
{
    if k == 0 {
        p
    } else {
        stepped(stepped_times(p, (k - 1) as nat))
    }
}

/// What holds of a particle just spawned in a region of the given bounds:
/// on the bottom edge, at rest sideways, rising, pushed downward, near-opaque
/// white.
pub open spec fn is_newborn(p: Particle, width: int, height: int) -> bool {
    &&& p.width == PARTICLE_SIDE
    &&& p.height == PARTICLE_SIDE
    &&& 0 <= p.position.x <= width
    &&& p.position.y == height
    &&& p.velocity.x == 0
    &&& -MAX_RISE <= p.velocity.y < 0
    &&& p.acceleration.x == 0
    &&& 0 <= p.acceleration.y < MAX_LIFT
    &&& p.color == Rgba { r: FULL, g: FULL, b: FULL, a: BIRTH_ALPHA }
}

/// An opacity that is visible and at most full.
pub open spec fn alpha_in_range(a: int) -> bool {
    0 < a <= FULL
}

/// A tick's fade never raises opacity, leaves a visible opacity visible, and
/// falls short of the exact product by less than one unit.
pub proof fn lemma_fade_bounds(a: int)
    requires
        0 <= a,
    ensures
        faded(a) <= a,
        0 < a ==> 0 < faded(a),
        alpha_in_range(a) ==> alpha_in_range(faded(a)),
        faded(a) * FADE_DEN < a * FADE_NUM + FADE_DEN,
        faded(a) * FADE_DEN >= a * FADE_NUM,
{
    assert((a * 995 + 999) / 1000 <= a) by (nonlinear_arith)
        requires a >= 0;
    assert(0 < a ==> 0 < (a * 995 + 999) / 1000) by (nonlinear_arith);
    assert(((a * 995 + 999) / 1000) * 1000 <= a * 995 + 999) by (nonlinear_arith)
        requires a >= 0;
    assert(((a * 995 + 999) / 1000) * 1000 >= a * 995) by (nonlinear_arith)
        requires a >= 0;
}

proof fn lemma_fade_geometric(next: int, cur: int, a0: int, pd: int, pn: int)
    requires
        next * 1000 < cur * 995 + 1000,
        cur * pd <= a0 * pn + 200 * pd,
        0 <= cur,
        0 <= pd,
    ensures
        next * (1000 * pd) <= a0 * (995 * pn) + 200 * (1000 * pd),
{
    assert(next * 1000 * pd <= cur * 995 * pd + 1000 * pd) by (nonlinear_arith)
        requires next * 1000 < cur * 995 + 1000, 0 <= pd;
    assert(cur * 995 * pd <= a0 * 995 * pn + 199000 * pd) by (nonlinear_arith)
        requires cur * pd <= a0 * pn + 200 * pd;
    assert(next * (1000 * pd) <= a0 * (995 * pn) + 200 * (1000 * pd)) by (nonlinear_arith)
        requires next * 1000 * pd <= cur * 995 * pd + 1000 * pd,
            cur * 995 * pd <= a0 * 995 * pn + 199000 * pd;
}

pub open spec fn abs(v: int) -> int {
    if v < 0 {
        -v
    } else {
        v
    }
}

proof fn lemma_damp_step(a: int)
    ensures
        abs(damped(a)) * DAMP_DEN <= abs(a) * DAMP_NUM,
        a >= 0 ==> damped(a) >= 0,
        a <= 0 ==> damped(a) <= 0,
        abs(damped(a)) <= abs(a),
        a >= 0 ==> damped(a) * DAMP_DEN >= a * DAMP_NUM - 9,
{
    let m = abs(a);
    assert(0 <= m * 7 / 10 && (m * 7 / 10) * 10 <= m * 7 && m * 7 / 10 <= m) by (nonlinear_arith)
        requires m >= 0;
    assert((m * 7 / 10) * 10 >= m * 7 - 9) by (nonlinear_arith)
        requires m >= 0;
}

proof fn lemma_damp_geometric(d: int, q: int, a0: int, pd: int, pn: int)
    requires
        d * 10 <= q * 7,
        q * pd <= a0 * pn,
        0 <= d,
        0 <= q,
        0 <= pd,
    ensures
        d * (10 * pd) <= a0 * (7 * pn),
{
    assert(d * (10 * pd) <= a0 * (7 * pn)) by (nonlinear_arith)
        requires d * 10 <= q * 7, q * pd <= a0 * pn, 0 <= d, 0 <= q, 0 <= pd;
}

proof fn lemma_damp_floor(d: int, q: int, a0: int, pd: int, pn: int)
    requires
        d * 10 >= q * 7 - 9,
        q * pd >= a0 * pn - 3 * pd,
        0 <= pd,
    ensures
        d * (10 * pd) >= a0 * (7 * pn) - 3 * (10 * pd),
{
    assert(d * 10 * pd >= q * 7 * pd - 9 * pd) by (nonlinear_arith)
        requires d * 10 >= q * 7 - 9, 0 <= pd;
    assert(q * 7 * pd >= a0 * 7 * pn - 21 * pd) by (nonlinear_arith)
        requires q * pd >= a0 * pn - 3 * pd;
    assert(d * (10 * pd) >= a0 * (7 * pn) - 3 * (10 * pd)) by (nonlinear_arith)
        requires d * 10 * pd >= q * 7 * pd - 9 * pd, q * 7 * pd >= a0 * 7 * pn - 21 * pd;
}

proof fn lemma_fade_floor(next: int, cur: int, a0: int, pd: int, pn: int)
    requires
        next * 1000 >= cur * 995,
        cur * pd >= a0 * pn,
        0 <= pd,
    ensures
        next * (1000 * pd) >= a0 * (995 * pn),
{
    assert(next * 1000 * pd >= cur * 995 * pd) by (nonlinear_arith)
        requires next * 1000 >= cur * 995, 0 <= pd;
    assert(cur * 995 * pd >= a0 * 995 * pn) by (nonlinear_arith)
        requires cur * pd >= a0 * pn;
    assert(next * (1000 * pd) >= a0 * (995 * pn)) by (nonlinear_arith)
        requires next * 1000 * pd >= cur * 995 * pd, cur * 995 * pd >= a0 * 995 * pn;
}

/// Ticks in a row shrink each component of the acceleration toward zero by at
/// least `DAMP_NUM / DAMP_DEN` per tick, never crossing zero. Opacity never
/// rises, a visible opacity stays visible, and after `k` ticks it is at most
/// the start times `(FADE_NUM / FADE_DEN)^k`, plus 200 units for rounding, and
/// at least that product. A non-negative acceleration is at least the start
/// times `(DAMP_NUM / DAMP_DEN)^k`, less 3 units for rounding.
pub proof fn lemma_decay(p: Particle, k: nat)
    ensures
        abs(stepped_times(p, k).acceleration.x as int) * pow(DAMP_DEN as int, k) <= abs(
            p.acceleration.x as int,
        ) * pow(DAMP_NUM as int, k),
        abs(stepped_times(p, k).acceleration.y as int) * pow(DAMP_DEN as int, k) <= abs(
            p.acceleration.y as int,
        ) * pow(DAMP_NUM as int, k),
        p.acceleration.x >= 0 ==> stepped_times(p, k).acceleration.x >= 0,
        p.acceleration.x <= 0 ==> stepped_times(p, k).acceleration.x <= 0,
        p.acceleration.y >= 0 ==> stepped_times(p, k).acceleration.y >= 0,
        p.acceleration.y <= 0 ==> stepped_times(p, k).acceleration.y <= 0,
        stepped_times(p, k).color.a <= p.color.a,
        0 < p.color.a ==> 0 < stepped_times(p, k).color.a,
        stepped_times(p, k).color.a * pow(FADE_DEN as int, k) <= p.color.a * pow(
            FADE_NUM as int,
            k,
        ) + 200 * pow(FADE_DEN as int, k),
        stepped_times(p, k).color.a * pow(FADE_DEN as int, k) >= p.color.a * pow(
            FADE_NUM as int,
            k,
        ),
        p.acceleration.y >= 0 ==> stepped_times(p, k).acceleration.y * pow(DAMP_DEN as int, k)
            >= p.acceleration.y * pow(DAMP_NUM as int, k) - 3 * pow(DAMP_DEN as int, k),
    decreases k,
{
    if k == 0 {
        reveal(pow);
        assert(pow(DAMP_DEN as int, 0) == 1 && pow(DAMP_NUM as int, 0) == 1);
        assert(pow(FADE_DEN as int, 0) == 1 && pow(FADE_NUM as int, 0) == 1);
    } else {
        let k1 = (k - 1) as nat;
        lemma_decay(p, k1);
        let q = stepped_times(p, k1);
        let r = stepped_times(p, k);
        lemma_damp_step(q.acceleration.x as int);
        lemma_damp_step(q.acceleration.y as int);
        lemma_fade_bounds(q.color.a as int);
        vstd::arithmetic::power::lemma_pow_positive(10, k1);
        reveal(pow);
        assert(pow(DAMP_DEN as int, k) == 10 * pow(10, k1));
        assert(pow(DAMP_NUM as int, k) == 7 * pow(7, k1));
        assert(pow(FADE_DEN as int, k) == 1000 * pow(1000, k1));
        assert(pow(FADE_NUM as int, k) == 995 * pow(995, k1));
        vstd::arithmetic::power::lemma_pow_positive(1000, k1);
        lemma_fade_floor(
            r.color.a as int,
            q.color.a as int,
            p.color.a as int,
            pow(1000, k1),
            pow(995, k1),
        );
        if p.acceleration.y >= 0 {
            lemma_damp_floor(
                r.acceleration.y as int,
                q.acceleration.y as int,
                p.acceleration.y as int,
                pow(10, k1),
                pow(7, k1),
            );
        }
        lemma_fade_geometric(
            r.color.a as int,
            q.color.a as int,
            p.color.a as int,
            pow(1000, k1),
            pow(995, k1),
        );
        lemma_damp_geometric(
            abs(r.acceleration.x as int),
            abs(q.acceleration.x as int),
            abs(p.acceleration.x as int),
            pow(10, k1),
            pow(7, k1),
        );
        lemma_damp_geometric(
            abs(r.acceleration.y as int),
            abs(q.acceleration.y as int),
            abs(p.acceleration.y as int),
            pow(10, k1),
            pow(7, k1),
        );
    }
}

/// A particle that starts at rest, pushed vertically by a lift in
/// `[0, MAX_LIFT)`, stays at rest sideways, and its vertical speed never falls
/// and stays within `DAMP_DEN / (DAMP_DEN - DAMP_NUM)` times the lift: the
/// velocity settles.
pub proof fn lemma_velocity_settles(p: Particle, k: nat)
    requires
        p.velocity.x == 0,
        p.velocity.y == 0,
        p.acceleration.x == 0,
        0 <= p.acceleration.y < MAX_LIFT,
    ensures
        stepped_times(p, k).velocity.x == 0,
        stepped_times(p, k).acceleration.x == 0,
        0 <= stepped_times(p, k).acceleration.y,
        0 <= stepped_times(p, k).velocity.y,
        stepped_times(p, k).velocity.y * 3 + stepped_times(p, k).acceleration.y * 10
            <= p.acceleration.y * 10,
        stepped_times(p, k).velocity.y <= stepped_times(p, k + 1).velocity.y,
    decreases k,
{
    if k > 0 {
        lemma_velocity_settles(p, (k - 1) as nat);
        let q = stepped_times(p, (k - 1) as nat);
        lemma_damp_step(q.acceleration.y as int);
        lemma_damp_step(q.acceleration.x as int);
    }
    let r = stepped_times(p, k);
    assert(stepped_times(p, k + 1) == stepped(r));
    lemma_damp_step(r.acceleration.y as int);
}

fn add_pinned(a: i64, b: i64) -> (r: i64)
    ensures
        r == clamp_i64(a + b),
{
    match a.checked_add(b) {
        Some(s) => s,
        None => if b > 0 {
            i64::MAX
        } else {
            i64::MIN
        },
    }
}

fn add_vec(a: Vec2, b: Vec2) -> (r: Vec2)
    ensures
        r == sum_pinned(a, b),
{
    Vec2 { x: add_pinned(a.x, b.x), y: add_pinned(a.y, b.y) }
}

fn damp(a: i64) -> (r: i64)
    ensures
        r == damped(a as int),
{
    let wide = a as i128;
    if wide >= 0 {
        assert(0 <= wide * 7 / 10 <= wide) by (nonlinear_arith)
            requires wide >= 0;
        (wide * DAMP_NUM / DAMP_DEN) as i64
    } else {
        let m = -wide;
        assert(0 <= m * 7 / 10 <= m) by (nonlinear_arith)
            requires m > 0;
        -((m * DAMP_NUM / DAMP_DEN) as i64)
    }
}

fn fade(a: u32) -> (r: u32)
    ensures
        r == faded(a as int),
{
    let wide = a as u64;
    assert((wide * 995 + 999) / 1000 <= wide) by (nonlinear_arith)
        requires wide >= 0;
    ((wide * FADE_NUM + (FADE_DEN - 1)) / FADE_DEN) as u32
}

impl Particle {
    /// The particle spawned from the given draws: at `x` on the bottom edge
    /// `height`, with vertical velocity `rise` and vertical acceleration `lift`.
    pub fn launched(x: i64, height: i64, rise: i64, lift: i64) -> (r: Particle)
        ensures
            r == (Particle {
                width: PARTICLE_SIDE,
                height: PARTICLE_SIDE,
                position: Vec2 { x, y: height },
                velocity: Vec2 { x: 0, y: rise },
                acceleration: Vec2 { x: 0, y: lift },
                color: Rgba { r: FULL, g: FULL, b: FULL, a: BIRTH_ALPHA },
            }),
    {
        Particle {
            width: PARTICLE_SIDE,
            height: PARTICLE_SIDE,
            position: Vec2 { x, y: height },
            velocity: Vec2 { x: 0, y: rise },
            acceleration: Vec2 { x: 0, y: lift },
            color: Rgba { r: FULL, g: FULL, b: FULL, a: BIRTH_ALPHA },
        }
    }

    /// Spawns a particle in a region of the given bounds, drawing its
    /// horizontal position, rise and lift from `rng`.
    pub fn new(rng: &mut rand::rngs::StdRng, width: i64, height: i64) -> (r: Particle)
        requires
            width >= 0,
        ensures
            is_newborn(r, width as int, height as int),
    {
        let x = draw_between(rng, 0, width);
        let rise = draw_between(rng, -MAX_RISE, -1);
        let lift = draw_between(rng, 0, MAX_LIFT - 1);
        Particle::launched(x, height, rise, lift)
    }

    /// Advances the particle by one tick: velocity takes the acceleration,
    /// position takes the new velocity, then acceleration is damped and
    /// opacity fades.
    pub fn update(&mut self)
        ensures
            *final(self) == stepped(*old(self)),
    {
        self.velocity = add_vec(self.velocity, self.acceleration);
        self.position = add_vec(self.position, self.velocity);
        self.acceleration = Vec2 { x: damp(self.acceleration.x), y: damp(self.acceleration.y) };
        self.color.a = fade(self.color.a);
    }
}

} // verus!
