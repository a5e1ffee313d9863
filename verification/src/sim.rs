//! The simulation engine: configuration, attractor kinematics, the
//! integrator, collision detection, and the tick-driven world state.
//!
//! A tick runs a fixed order of phases: the phase angle advances and wraps,
//! the two attractor positions are derived from it, every ball accumulates
//! gravity and takes one semi-implicit Euler step, balls within the
//! collision radius of either attractor are removed and two replacement
//! spawn requests are queued for each, and finally the requests queued by
//! the *previous* tick are drained into new balls with zero velocity.

use vstd::prelude::*;
use crate::fixed::{
    abs_int, add_sat_spec, lemma_mul_fp_unit, mul_fp, mul_fp_spec, SCALE,
};
use crate::trig::{
    add_mod, add_mod_spec, cos_fp, cos_spec, lemma_cos_antipodal, lemma_sin_antipodal,
    lemma_sin_bounded, sin_fp, sin_spec, HALF_TURN, QUARTER_TURN, TAU_FP,
};
use crate::vec2::{norm_sq_spec, Vec2};
use crate::gravity::{accel_net, grav_x_spec, grav_y_spec};
use crate::rng::{gen_below, seed_rng};

verus! {

/// The collision radius in fixed point: 22.4 units (a 32-pixel sprite at
/// scale 1.4, halved), i.e. `22.4 * SCALE` rounded down.
pub const COLLISION_THRESHOLD: i64 = 1468006;

/// The process-wide configuration, immutable after startup.
#[derive(Clone, Copy, PartialEq, Eq, Structural, Debug)]
pub struct Config {
    /// Radius of the circle on which the two attractors orbit.
    pub bh_r: i64,
    /// Initial phase angle.
    pub angle: i64,
    /// Radius of the circle on which new balls spawn.
    pub r: i64,
    /// Angular rate of the attractors, in radians per second.
    pub da: i64,
    /// How many balls to request at startup.
    pub init_ball_number: i32,
    /// The gravitational constant.
    pub gravity: i64,
}

impl Config {
    /// A well-formed configuration: the angle is a reduced angle and every
    /// magnitude is nonnegative.
    pub open spec fn wf(self) -> bool {
        &&& 0 <= self.angle < TAU_FP
        &&& 0 <= self.bh_r
        &&& 0 <= self.r
        &&& 0 <= self.da
        &&& 0 <= self.gravity
    }
}

/// The default configuration: orbit radius 100, spawn radius 400, a fifth
/// of a turn per second, eight initial balls, gravitational constant 10^8,
/// all in fixed point.
pub open spec fn default_config() -> Config {
    Config {
        bh_r: 6553600,
        angle: 0,
        r: 26214400,
        da: 82355,
        init_ball_number: 8,
        gravity: 6553600000000,
    }
}

impl Default for Config {
    fn default() -> (c: Config)
        ensures
            c == default_config(),
            c.wf(),
    {
        Config {
            bh_r: 6553600,
            angle: 0,
            r: 26214400,
            da: 82355,
            init_ball_number: 8,
            gravity: 6553600000000,
        }
    }
}

/// A simulated particle: a position and a velocity.
#[derive(Clone, Copy, PartialEq, Eq, Structural, Debug)]
pub struct Ball {
    pub position: Vec2,
    pub velocity: Vec2,
}

/// A queued instruction to create a ball at a position, with zero velocity.
#[derive(Clone, Copy, PartialEq, Eq, Structural, Debug)]
pub struct SpawnRequest {
    pub position: Vec2,
}

/// The phase angle after one step: a single conditional wrap, the stated
/// policy for steps below one full turn.
pub open spec fn wrap_spec(x: int) -> int {
    if x >= TAU_FP as int {
        x - TAU_FP as int
    } else {
        x
    }
}

/// The phase angle after a tick of length `dt` at angular rate `da`.
pub open spec fn next_angle_spec(angle: int, da: int, dt: int) -> int {
    wrap_spec(angle + mul_fp_spec(da, dt))
}

/// After the wrap step the phase angle is again in `[0, TAU_FP)`, for every
/// reduced starting angle and every step below one full turn.
pub proof fn lemma_phase_wraps(angle: int, step: int)
    requires
        0 <= angle < TAU_FP as int,
        0 <= step < TAU_FP as int,
    ensures
        0 <= wrap_spec(angle + step) < TAU_FP as int,
{
}

/// The position of an attractor on the orbit circle of radius `bh_r` at
/// phase angle `a`.
pub open spec fn attractor_pos_spec(bh_r: int, a: int) -> Vec2 {
    Vec2 {
        x: mul_fp_spec(bh_r, cos_spec(a)) as i64,
        y: mul_fp_spec(bh_r, sin_spec(a)) as i64,
    }
}

/// The phase angle of the trailing attractor: half a turn away from `a`.
pub open spec fn trailing_angle_spec(a: int) -> int {
    add_mod_spec(a, HALF_TURN as int)
}

/// The cosine of every angle stays within one unit in magnitude.
pub proof fn lemma_cos_bounded(a: int)
    requires
        0 <= a < TAU_FP as int,
    ensures
        -(SCALE as int) <= cos_spec(a) <= SCALE as int,
{
    lemma_sin_bounded(add_mod_spec(a, QUARTER_TURN as int));
}

/// The two attractors are exactly antipodal: at every phase angle the
/// trailing position is the exact negation of the leading one, and both
/// stay within `bh_r` of the origin along each axis.
pub proof fn lemma_attractors_antipodal(bh_r: int, a: int)
    requires
        0 <= a < TAU_FP as int,
        0 <= bh_r <= i64::MAX as int,
    ensures
        attractor_pos_spec(bh_r, trailing_angle_spec(a)).x as int
            == -(attractor_pos_spec(bh_r, a).x as int),
        attractor_pos_spec(bh_r, trailing_angle_spec(a)).y as int
            == -(attractor_pos_spec(bh_r, a).y as int),
        abs_int(attractor_pos_spec(bh_r, a).x as int) <= bh_r,
        abs_int(attractor_pos_spec(bh_r, a).y as int) <= bh_r,
{
    lemma_cos_antipodal(a);
    lemma_sin_antipodal(a);
    lemma_cos_bounded(a);
    lemma_sin_bounded(a);
    lemma_mul_fp_unit(bh_r, cos_spec(a));
    lemma_mul_fp_unit(bh_r, sin_spec(a));
}

/// At the landmark phase angles (multiples of a quarter turn) the leading
/// attractor sits exactly at distance `bh_r` from the origin, on an axis.
pub proof fn lemma_attractor_on_circle_at_landmarks(bh_r: int)
    requires
        0 <= bh_r <= i64::MAX as int,
    ensures
        attractor_pos_spec(bh_r, 0).x as int == bh_r,
        attractor_pos_spec(bh_r, 0).y as int == 0,
        attractor_pos_spec(bh_r, QUARTER_TURN as int).x as int == 0,
        attractor_pos_spec(bh_r, QUARTER_TURN as int).y as int == bh_r,
{
    assert(102944 * (205888 - 102944) == 10597467136) by (nonlinear_arith);
    assert((1048576 * 10597467136int) / (211949342720 - 4 * 10597467136) == 65536)
        by (nonlinear_arith);
    assert(0 * (205888 - 0) == 0) by (nonlinear_arith);
    assert((1048576 * 0int) / (211949342720 - 4 * 0) == 0) by (nonlinear_arith);
    assert(sin_spec(0) == 0 && cos_spec(0) == 65536);
    assert(sin_spec(QUARTER_TURN as int) == 65536 && cos_spec(QUARTER_TURN as int) == 0);
    assert(bh_r * 65536 >= 0 && (bh_r * 65536) / 65536 == bh_r && bh_r * 0 == 0)
        by (nonlinear_arith)
        requires
            0 <= bh_r,
    ;
    assert(0int / 65536 == 0);
}

/// Computes both attractor positions for phase angle `a`: the leading one
/// at `a`, the trailing one exactly half a turn behind.
pub fn attractor_positions(bh_r: i64, a: i64) -> (r: (Vec2, Vec2))
    requires
        0 <= bh_r,
        0 <= a < TAU_FP,
    ensures
        r.0 == attractor_pos_spec(bh_r as int, a as int),
        r.1 == attractor_pos_spec(bh_r as int, trailing_angle_spec(a as int)),
{
    let c = cos_fp(a);
    let s = sin_fp(a);
    let at = add_mod(a, HALF_TURN);
    let ct = cos_fp(at);
    let st = sin_fp(at);
    (
        Vec2 { x: mul_fp(bh_r, c), y: mul_fp(bh_r, s) },
        Vec2 { x: mul_fp(bh_r, ct), y: mul_fp(bh_r, st) },
    )
}

/// One semi-implicit Euler step: the velocity moves first, the position
/// then uses the *new* velocity.
pub open spec fn integrate_spec(b: Ball, ax: int, ay: int, dt: int) -> Ball {
    let vx = add_sat_spec(b.velocity.x as int, mul_fp_spec(ax, dt));
    let vy = add_sat_spec(b.velocity.y as int, mul_fp_spec(ay, dt));
    let px = add_sat_spec(b.position.x as int, mul_fp_spec(vx, dt));
    let py = add_sat_spec(b.position.y as int, mul_fp_spec(vy, dt));
    Ball {
        position: Vec2 { x: px as i64, y: py as i64 },
        velocity: Vec2 { x: vx as i64, y: vy as i64 },
    }
}

/// Advances one ball by one tick under acceleration `acc`.
pub fn integrate(b: Ball, acc: Vec2, dt: i64) -> (r: Ball)
    ensures
        r == integrate_spec(b, acc.x as int, acc.y as int, dt as int),
{
    let vel = b.velocity.plus(acc.scaled(dt));
    let pos = b.position.plus(vel.scaled(dt));
    Ball { position: pos, velocity: vel }
}

/// Whether a ball's position lies within the collision radius of the
/// attractor at `a` (boundary included).
pub open spec fn hits_spec(b: Ball, a: Vec2) -> bool {
    norm_sq_spec(a.x - b.position.x, a.y - b.position.y)
        <= (COLLISION_THRESHOLD as int) * (COLLISION_THRESHOLD as int)
}

/// Whether a ball collides with either attractor.
pub open spec fn collides_spec(b: Ball, a1: Vec2, a2: Vec2) -> bool {
    hits_spec(b, a1) || hits_spec(b, a2)
}

/// Tests a ball against both attractors.
pub fn check_collision(b: &Ball, a1: Vec2, a2: Vec2) -> (r: bool)
    ensures
        r == collides_spec(*b, a1, a2),
{
    b.position.within(a1, COLLISION_THRESHOLD) || b.position.within(a2, COLLISION_THRESHOLD)
}

/// The position on the spawn circle of radius `r` at angle `a`.
pub open spec fn spawn_pos_spec(r: int, a: int) -> Vec2 {
    Vec2 {
        x: mul_fp_spec(r, cos_spec(a)) as i64,
        y: mul_fp_spec(r, sin_spec(a)) as i64,
    }
}

/// The point lies on the spawn circle of radius `r`, at some angle.
pub open spec fn on_spawn_circle(p: Vec2, r: int) -> bool {
    exists|a: int| 0 <= a < TAU_FP as int && p == spawn_pos_spec(r, a)
}

/// The balls a queue of spawn requests turns into: one ball per request, at
/// the requested position, with zero velocity.
pub open spec fn spawn_balls_spec(q: Seq<SpawnRequest>) -> Seq<Ball> {
    q.map_values(
        |req: SpawnRequest| Ball { position: req.position, velocity: Vec2 { x: 0, y: 0 } },
    )
}

/// One ball after one tick: gravity accumulated from both attractors, then
/// one integrator step.
pub open spec fn step_ball_spec(g: int, a1: Vec2, a2: Vec2, dt: int, b: Ball) -> Ball {
    integrate_spec(
        b,
        add_sat_spec(grav_x_spec(g, b.position, a1), grav_x_spec(g, b.position, a2)),
        add_sat_spec(grav_y_spec(g, b.position, a1), grav_y_spec(g, b.position, a2)),
        dt,
    )
}

/// The balls that survive a tick, in order: every ball steps once, and the
/// ones that then touch an attractor are dropped.
pub open spec fn tick_balls_spec(s: Seq<Ball>, g: int, a1: Vec2, a2: Vec2, dt: int) -> Seq<Ball>
    decreases s.len(),
{
    if s.len() == 0 {
        Seq::empty()
    } else {
        let rest = tick_balls_spec(s.drop_last(), g, a1, a2, dt);
        let nb = step_ball_spec(g, a1, a2, dt, s.last());
        if collides_spec(nb, a1, a2) {
            rest
        } else {
            rest.push(nb)
        }
    }
}

/// How many balls collide during a tick.
pub open spec fn tick_collisions_spec(s: Seq<Ball>, g: int, a1: Vec2, a2: Vec2, dt: int) -> int
    decreases s.len(),
{
    if s.len() == 0 {
        0
    } else {
        tick_collisions_spec(s.drop_last(), g, a1, a2, dt) + if collides_spec(
            step_ball_spec(g, a1, a2, dt, s.last()),
            a1,
            a2,
        ) {
            1int
        } else {
            0int
        }
    }
}

/// A ball exactly at the collision radius from an attractor (here along an
/// axis) is marked; one even a single raw unit farther is not.
pub proof fn lemma_collision_boundary(b: Ball, a: Vec2, e: int)
    requires
        a.y == b.position.y,
        a.x - b.position.x == COLLISION_THRESHOLD + e,
        0 <= e,
    ensures
        e == 0 ==> hits_spec(b, a),
        e >= 1 ==> !hits_spec(b, a),
{
    let t = COLLISION_THRESHOLD as int;
    assert((t + e) * (t + e) + 0 * 0 > t * t || e == 0) by (nonlinear_arith)
        requires
            0 <= e,
            t >= 1,
    ;
}

/// Draws a uniform angle and returns the spawn-circle point there.
fn draw_spawn_pos(rng: &mut rand_chacha::ChaCha8Rng, r: i64) -> (p: Vec2)
    requires
        0 <= r,
    ensures
        on_spawn_circle(p, r as int),
{
    let v: u64 = gen_below(rng, 411776);
    let a: i64 = v as i64;
    let c = cos_fp(a);
    let s = sin_fp(a);
    let p = Vec2 { x: mul_fp(r, c), y: mul_fp(r, s) };
    proof {
        assert(0 <= (a as int) < (TAU_FP as int) && p == spawn_pos_spec(r as int, a as int));
    }
    p
}

/// The whole simulation state: the shared phase angle, the alive balls, the
/// spawn requests queued for the next tick, and the seeded generator that
/// picks spawn angles.
pub struct World {
    pub config: Config,
    pub angle: i64,
    pub balls: Vec<Ball>,
    pub queue: Vec<SpawnRequest>,
    /// The seeded generator behind the spawn angles; opaque to the
    /// contracts, which state what holds whatever it yields.
    pub rng: rand_chacha::ChaCha8Rng,
}

/// The phase angle after a tick of length `dt`.
pub open spec fn tick_angle(w: World, dt: int) -> int {
    next_angle_spec(w.angle as int, w.config.da as int, dt)
}

/// The leading attractor position during a tick of length `dt`.
pub open spec fn tick_lead(w: World, dt: int) -> Vec2 {
    attractor_pos_spec(w.config.bh_r as int, tick_angle(w, dt))
}

/// The trailing attractor position during a tick of length `dt`.
pub open spec fn tick_trail(w: World, dt: int) -> Vec2 {
    attractor_pos_spec(w.config.bh_r as int, trailing_angle_spec(tick_angle(w, dt)))
}

/// The balls that survive a tick of length `dt`.
pub open spec fn tick_survivors(w: World, dt: int) -> Seq<Ball> {
    tick_balls_spec(w.balls@, w.config.gravity as int, tick_lead(w, dt), tick_trail(w, dt), dt)
}

/// How many balls collide during a tick of length `dt`.
pub open spec fn tick_collision_count(w: World, dt: int) -> int {
    tick_collisions_spec(w.balls@, w.config.gravity as int, tick_lead(w, dt), tick_trail(w, dt), dt)
}

/// How one tick of length `dt` relates the old world to the new one:
/// the phase advances and wraps; the new ball list is exactly the stepped
/// survivors followed by one zero-velocity ball per previously queued
/// request, in order; and the new queue holds exactly two spawn-circle
/// requests per collision.
pub open spec fn tick_rel(w0: World, w1: World, dt: int) -> bool {
    &&& w1.config == w0.config
    &&& w1.angle as int == tick_angle(w0, dt)
    &&& w1.balls@ == tick_survivors(w0, dt) + spawn_balls_spec(w0.queue@)
    &&& w1.queue@.len() == 2 * tick_collision_count(w0, dt)
    &&& forall|i: int|
        0 <= i < w1.queue@.len() ==> on_spawn_circle(w1.queue@[i].position, w0.config.r as int)
}

impl World {
    /// A well-formed world: a well-formed configuration and a reduced
    /// phase angle.
    pub open spec fn wf(self) -> bool {
        &&& self.config.wf()
        &&& 0 <= self.angle < TAU_FP
    }

    /// Builds the world at startup: no balls yet, and one spawn request per
    /// initially requested ball, each at an independently drawn angle on
    /// the spawn circle. The requests are drained on the first tick.
    pub fn new(config: Config, seed: u64) -> (w: World)
        requires
            config.wf(),
        ensures
            w.wf(),
            w.config == config,
            w.angle == config.angle,
            w.balls@.len() == 0,
            w.queue@.len() == (if config.init_ball_number >= 0 {
                config.init_ball_number as int
            } else {
                0
            }),
            forall|i: int|
                0 <= i < w.queue@.len() ==> on_spawn_circle(w.queue@[i].position, config.r as int),
    {
        let mut rng = seed_rng(seed);
        let mut queue: Vec<SpawnRequest> = Vec::new();
        let n: i32 = config.init_ball_number;
        let mut k: i32 = 0;
        while k < n
            invariant
                0 <= k,
                n >= 0 ==> k <= n,
                n < 0 ==> k == 0,
                queue@.len() == k as int,
                forall|i: int|
                    0 <= i < queue@.len() ==> on_spawn_circle(queue@[i].position, config.r as int),
                0 <= config.r,
            decreases n - k,
        {
            let p = draw_spawn_pos(&mut rng, config.r);
            queue.push(SpawnRequest { position: p });
            k = k + 1;
        }
        World { config, angle: config.angle, balls: Vec::new(), queue, rng }
    }

    /// Advances the simulation by one tick of length `dt` (seconds, fixed
    /// point). The step `da * dt` must stay below one full turn: the single
    /// conditional wrap is only correct there, the stated edge-case policy.
    #[verifier::loop_isolation(false)]
    pub fn tick(&mut self, dt: i64)
        requires
            old(self).wf(),
            0 <= dt,
            mul_fp_spec(old(self).config.da as int, dt as int) < TAU_FP as int,
        ensures
            final(self).wf(),
            tick_rel(*old(self), *final(self), dt as int),
    {
        proof {
            let da: int = old(self).config.da as int;
            let dti: int = dt as int;
            assert(da * dti >= 0) by (nonlinear_arith)
                requires
                    da >= 0,
                    dti >= 0,
            ;
        }
        let step = mul_fp(self.config.da, dt);
        let sum = self.angle + step;
        let na = if sum >= TAU_FP {
            sum - TAU_FP
        } else {
            sum
        };
        self.angle = na;
        let (a1, a2) = attractor_positions(self.config.bh_r, na);
        let g = self.config.gravity;
        let r_spawn = self.config.r;
        let n = self.balls.len();
        let mut survivors: Vec<Ball> = Vec::new();
        let mut new_queue: Vec<SpawnRequest> = Vec::new();
        let mut i: usize = 0;
        while i < n
            invariant
                i <= n,
                self.config == old(self).config,
                self.angle == na,
                self.balls@ == old(self).balls@,
                self.queue@ == old(self).queue@,
                survivors@ == tick_balls_spec(
                    old(self).balls@.take(i as int),
                    g as int,
                    a1,
                    a2,
                    dt as int,
                ),
                new_queue@.len() == 2 * tick_collisions_spec(
                    old(self).balls@.take(i as int),
                    g as int,
                    a1,
                    a2,
                    dt as int,
                ),
                forall|k: int|
                    0 <= k < new_queue@.len() ==> on_spawn_circle(
                        new_queue@[k].position,
                        r_spawn as int,
                    ),
            decreases n - i,
        {
            let b = self.balls[i];
            let acc = accel_net(g, b.position, a1, a2);
            let nb = integrate(b, acc, dt);
            proof {
                assert(old(self).balls@.take(i as int + 1).drop_last() =~= old(
                    self,
                ).balls@.take(i as int));
                assert(old(self).balls@.take(i as int + 1).last() == b);
            }
            if check_collision(&nb, a1, a2) {
                let p1 = draw_spawn_pos(&mut self.rng, r_spawn);
                new_queue.push(SpawnRequest { position: p1 });
                let p2 = draw_spawn_pos(&mut self.rng, r_spawn);
                new_queue.push(SpawnRequest { position: p2 });
            } else {
                survivors.push(nb);
            }
            i = i + 1;
        }
        proof {
            assert(old(self).balls@.take(n as int) =~= old(self).balls@);
        }
        let mut new_balls = survivors;
        let qn = self.queue.len();
        let mut j: usize = 0;
        while j < qn
            invariant
                j <= qn,
                self.config == old(self).config,
                self.angle == na,
                self.balls@ == old(self).balls@,
                self.queue@ == old(self).queue@,
                new_balls@ == tick_balls_spec(old(self).balls@, g as int, a1, a2, dt as int)
                    + spawn_balls_spec(old(self).queue@.take(j as int)),
            decreases qn - j,
        {
            let pos = self.queue[j].position;
            new_balls.push(Ball { position: pos, velocity: Vec2 { x: 0, y: 0 } });
            proof {
                assert(spawn_balls_spec(old(self).queue@.take(j as int + 1))
                    =~= spawn_balls_spec(old(self).queue@.take(j as int)).push(
                    Ball { position: pos, velocity: Vec2 { x: 0, y: 0 } },
                ));
            }
            j = j + 1;
        }
        proof {
            assert(old(self).queue@.take(qn as int) =~= old(self).queue@);
        }
        self.balls = new_balls;
        self.queue = new_queue;
    }

    /// Whether a tick of length `dt` is within the wrap policy: the phase
    /// step `da * dt` must stay below one full turn.
    pub fn step_fits(&self, dt: i64) -> (r: bool)
        requires
            0 <= self.config.da,
            0 <= dt,
        ensures
            r == (mul_fp_spec(self.config.da as int, dt as int) < TAU_FP as int),
    {
        let step = mul_fp(self.config.da, dt);
        step < TAU_FP
    }

    /// How many balls are alive.
    pub fn alive_count(&self) -> (n: usize)
        ensures
            n == self.balls@.len(),
    {
        self.balls.len()
    }

    /// Both attractor positions at the current phase angle, for rendering:
    /// the leading one first.
    pub fn attractors(&self) -> (r: (Vec2, Vec2))
        requires
            self.wf(),
        ensures
            r.0 == attractor_pos_spec(self.config.bh_r as int, self.angle as int),
            r.1 == attractor_pos_spec(
                self.config.bh_r as int,
                trailing_angle_spec(self.angle as int),
            ),
    {
        attractor_positions(self.config.bh_r, self.angle)
    }
}

/// The ball after `n` integrator ticks under a constant acceleration.
pub open spec fn iterate_integrate_spec(b: Ball, ax: int, ay: int, dt: int, n: nat) -> Ball
    decreases n,
{
    if n == 0 {
        b
    } else {
        integrate_spec(iterate_integrate_spec(b, ax, ay, dt, (n - 1) as nat), ax, ay, dt)
    }
}

/// The closed-form symplectic position recurrence along one axis: after
/// tick `k` the velocity is exactly `k * dv`, and each tick adds that
/// velocity times `dt` to the position.
pub open spec fn sympl_pos_spec(p0: int, dv: int, dt: int, n: nat) -> int
    decreases n,
{
    if n == 0 {
        p0
    } else {
        sympl_pos_spec(p0, dv, dt, (n - 1) as nat) + mul_fp_spec(n as int * dv, dt)
    }
}

/// Under zero initial velocity and a constant acceleration, `n` integrator
/// ticks of fixed length `dt` give, on each axis, velocity exactly `n`
/// times the per-tick increment `dv = a * dt`, and a position that follows
/// the closed-form symplectic-Euler recurrence — not continuous-time
/// kinematics. The bounds only keep every intermediate value inside the
/// `i64` range, where the saturating operations are exact.
pub proof fn lemma_integrator_closed_form(b: Ball, ax: int, ay: int, dt: int, n: nat)
    requires
        b.velocity.x == 0,
        b.velocity.y == 0,
        i64::MIN as int <= n as int * mul_fp_spec(ax, dt) <= i64::MAX as int,
        i64::MIN as int <= n as int * mul_fp_spec(ay, dt) <= i64::MAX as int,
        forall|k: nat|
            k <= n ==> i64::MIN as int <= #[trigger] sympl_pos_spec(
                b.position.x as int,
                mul_fp_spec(ax, dt),
                dt,
                k,
            ) <= i64::MAX as int,
        forall|k: nat|
            k <= n ==> i64::MIN as int <= #[trigger] sympl_pos_spec(
                b.position.y as int,
                mul_fp_spec(ay, dt),
                dt,
                k,
            ) <= i64::MAX as int,
    ensures
        iterate_integrate_spec(b, ax, ay, dt, n).velocity.x as int == n as int * mul_fp_spec(
            ax,
            dt,
        ),
        iterate_integrate_spec(b, ax, ay, dt, n).velocity.y as int == n as int * mul_fp_spec(
            ay,
            dt,
        ),
        iterate_integrate_spec(b, ax, ay, dt, n).position.x as int == sympl_pos_spec(
            b.position.x as int,
            mul_fp_spec(ax, dt),
            dt,
            n,
        ),
        iterate_integrate_spec(b, ax, ay, dt, n).position.y as int == sympl_pos_spec(
            b.position.y as int,
            mul_fp_spec(ay, dt),
            dt,
            n,
        ),
    decreases n,
{
    let dvx = mul_fp_spec(ax, dt);
    let dvy = mul_fp_spec(ay, dt);
    if n == 0 {
        assert(n as int * dvx == 0 && n as int * dvy == 0) by (nonlinear_arith)
            requires
                n as int == 0,
        ;
    } else {
        let m = (n - 1) as nat;
        assert((dvx >= 0 ==> 0 <= m as int * dvx <= n as int * dvx) && (dvx < 0 ==> n as int
            * dvx <= m as int * dvx <= 0) && m as int * dvx + dvx == n as int * dvx)
            by (nonlinear_arith)
            requires
                m as int == n as int - 1,
                0 <= m as int,
        ;
        assert((dvy >= 0 ==> 0 <= m as int * dvy <= n as int * dvy) && (dvy < 0 ==> n as int
            * dvy <= m as int * dvy <= 0) && m as int * dvy + dvy == n as int * dvy)
            by (nonlinear_arith)
            requires
                m as int == n as int - 1,
                0 <= m as int,
        ;
        lemma_integrator_closed_form(b, ax, ay, dt, m);
        let prev = iterate_integrate_spec(b, ax, ay, dt, m);
        assert(add_sat_spec(m as int * dvx, dvx) == n as int * dvx);
        assert(add_sat_spec(m as int * dvy, dvy) == n as int * dvy);
        assert(sympl_pos_spec(b.position.x as int, dvx, dt, n) == sympl_pos_spec(
            b.position.x as int,
            dvx,
            dt,
            m,
        ) + mul_fp_spec(n as int * dvx, dt));
        assert(add_sat_spec(prev.position.x as int, mul_fp_spec(n as int * dvx, dt))
            == sympl_pos_spec(b.position.x as int, dvx, dt, n));
        assert(add_sat_spec(prev.position.y as int, mul_fp_spec(n as int * dvy, dt))
            == sympl_pos_spec(b.position.y as int, dvy, dt, n));
    }
}

/// A tick partitions the balls: every ball either survives or collides.
pub proof fn lemma_tick_ball_counts(s: Seq<Ball>, g: int, a1: Vec2, a2: Vec2, dt: int)
    ensures
        0 <= tick_collisions_spec(s, g, a1, a2, dt) <= s.len(),
        tick_balls_spec(s, g, a1, a2, dt).len() + tick_collisions_spec(s, g, a1, a2, dt)
            == s.len(),
    decreases s.len(),
{
    if s.len() > 0 {
        lemma_tick_ball_counts(s.drop_last(), g, a1, a2, dt);
    }
}

/// The population account of one tick: each collision yields exactly two
/// new spawn requests, and each previously queued request yields exactly
/// one new ball, at the requested position, with zero velocity.
pub proof fn lemma_population_balance(w0: World, w1: World, dt: int)
    requires
        tick_rel(w0, w1, dt),
    ensures
        w1.queue@.len() == 2 * tick_collision_count(w0, dt),
        w1.balls@.len() == w0.balls@.len() - tick_collision_count(w0, dt) + w0.queue@.len(),
        forall|k: int|
            0 <= k < w0.queue@.len() ==> w1.balls@[w1.balls@.len() - w0.queue@.len() + k]
                == (Ball { position: w0.queue@[k].position, velocity: Vec2 { x: 0, y: 0 } }),
{
    lemma_tick_ball_counts(w0.balls@, w0.config.gravity as int, tick_lead(w0, dt), tick_trail(w0, dt), dt);
}

/// The first tick of a fresh world, with no balls yet: every initially
/// queued request becomes one ball with zero velocity, in order, and the
/// queue empties.
pub proof fn lemma_first_tick(w0: World, w1: World, dt: int)
    requires
        tick_rel(w0, w1, dt),
        w0.balls@.len() == 0,
    ensures
        w1.balls@.len() == w0.queue@.len(),
        w1.queue@.len() == 0,
        forall|k: int|
            0 <= k < w1.balls@.len() ==> w1.balls@[k] == (Ball {
                position: w0.queue@[k].position,
                velocity: Vec2 { x: 0, y: 0 },
            }),
{
    lemma_population_balance(w0, w1, dt);
}

/// One collision, then a quiet tick: the population rises by exactly one —
/// one ball destroyed, two spawned on the following tick.
pub proof fn lemma_net_gain_after_collision(w0: World, w1: World, w2: World, dt1: int, dt2: int)
    requires
        tick_rel(w0, w1, dt1),
        tick_rel(w1, w2, dt2),
        w0.queue@.len() == 0,
        tick_collision_count(w0, dt1) == 1,
        tick_collision_count(w1, dt2) == 0,
    ensures
        w1.balls@.len() == w0.balls@.len() - 1,
        w2.balls@.len() == w0.balls@.len() + 1,
{
    lemma_population_balance(w0, w1, dt1);
    lemma_population_balance(w1, w2, dt2);
}

/// The instantaneous tick rate `1 / dt` as a fixed-point value, i.e.
/// `SCALE^2 / dt` in raw units, for the per-tick diagnostic report.
pub fn tick_rate(dt: i64) -> (r: i64)
    requires
        1 <= dt,
    ensures
        r as int == 4294967296int / dt as int,
{
    let q: u64 = 4294967296u64 / (dt as u64);
    q as i64
}

} // verus!
