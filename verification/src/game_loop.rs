//! The fixed-timestep driver: wall-clock time goes in, whole simulation steps
//! come out, and what is left over is carried to the next frame.
//!
//! All times are in nanoseconds. The driver never reads a clock: whoever runs
//! the loop measures the frame and hands the elapsed time to [`GameLoop::advance`].

use vstd::prelude::*;
use vstd::arithmetic::div_mod::lemma_fundamental_div_mod;
use vstd::arithmetic::div_mod::lemma_fundamental_div_mod_converse;
use vstd::arithmetic::div_mod::lemma_mod_bound;
use vstd::arithmetic::div_mod::lemma_small_mod;
use vstd::arithmetic::div_mod::lemma_basic_div;

verus! {

/// Nanoseconds in one second.
pub const NANOS_PER_SECOND: u64 = 1_000_000_000;

/// Frame rate and stall cap of a game loop.
pub struct GameLoopConfig {
    /// Simulation steps per second.
    pub target_fps: u32,
    /// The longest frame, in nanoseconds, that is taken at face value; a longer
    /// one counts as this long.
    pub max_frame_time: u64,
}

impl GameLoopConfig {
    /// A frame rate the driver can run at: at least one step per second and at
    /// most one per nanosecond.
    pub open spec fn valid(&self) -> bool {
        0 < self.target_fps <= NANOS_PER_SECOND
    }

    /// Length of one simulation step in nanoseconds.
    pub open spec fn step(&self) -> int {
        NANOS_PER_SECOND as int / self.target_fps as int
    }

    /// Whether the driver can run at this frame rate.
    pub fn is_valid(&self) -> (ok: bool)
        ensures
            ok == self.valid(),
    {
        0 < self.target_fps && self.target_fps <= 1_000_000_000
    }

    /// Length of one simulation step in nanoseconds.
    pub fn fixed_step(&self) -> (step: u64)
        requires
            self.valid(),
        ensures
            step == self.step(),
            1 <= step <= NANOS_PER_SECOND,
    {
        let fps: u64 = self.target_fps as u64;
        proof {
            lemma_step_bounds(self.target_fps);
        }
        NANOS_PER_SECOND / fps
    }
}

impl Default for GameLoopConfig {
    /// Sixty steps per second, frames capped at a tenth of a second.
    fn default() -> (config: GameLoopConfig)
        ensures
            config.target_fps == 60,
            config.max_frame_time == 100_000_000,
    {
        GameLoopConfig { target_fps: 60, max_frame_time: 100_000_000 }
    }
}

/// The simulation clock, in nanoseconds.
#[derive(Debug, Clone, Copy, PartialEq, Eq, Structural)]
pub struct Time {
    /// Length of the current step.
    pub delta: u64,
    /// Simulated time since the start, the current step included.
    pub elapsed: u64,
}

impl Default for Time {
    /// The clock before the first step.
    fn default() -> (time: Time)
        ensures
            time.delta == 0,
            time.elapsed == 0,
    {
        Time { delta: 0, elapsed: 0 }
    }
}

impl Time {
    /// Moves the clock on by one step of `delta` nanoseconds.
    pub fn step(&mut self, delta: u64)
        requires
            old(self).elapsed + delta <= u64::MAX,
        ensures
            final(self).delta == delta,
            final(self).elapsed == old(self).elapsed + delta,
    {
        self.delta = delta;
        self.elapsed = self.elapsed + delta;
    }

    /// Whether the clock can be moved on by `delta` nanoseconds.
    pub fn can_step(&self, delta: u64) -> (ok: bool)
        ensures
            ok == (self.elapsed + delta <= u64::MAX),
    {
        delta <= u64::MAX - self.elapsed
    }
}

/// The frame time that counts: `elapsed`, or `max` where the frame took longer.
pub open spec fn clamp_delta(elapsed: u64, max: u64) -> int {
    if elapsed > max {
        max as int
    } else {
        elapsed as int
    }
}

/// Steps that are due when `delta` is added to a carry of `carry`.
pub open spec fn ticks_due(carry: int, delta: int, step: int) -> int {
    (carry + delta) / step
}

/// What is carried over once the due steps have been taken.
pub open spec fn carry_after(carry: int, delta: int, step: int) -> int {
    (carry + delta) % step
}

/// Total frame time of `deltas`, each frame capped at `max`.
pub open spec fn clamped_sum(deltas: Seq<u64>, max: u64) -> int
    decreases deltas.len(),
{
    if deltas.len() == 0 {
        0
    } else {
        clamped_sum(deltas.drop_last(), max) + clamp_delta(deltas.last(), max)
    }
}

/// The carry after the frames `deltas` have been fed in one by one.
pub open spec fn carry_after_frames(carry: int, deltas: Seq<u64>, max: u64, step: int) -> int
    decreases deltas.len(),
{
    if deltas.len() == 0 {
        carry
    } else {
        carry_after(
            carry_after_frames(carry, deltas.drop_last(), max, step),
            clamp_delta(deltas.last(), max),
            step,
        )
    }
}

/// The steps taken in all while the frames `deltas` were fed in one by one.
pub open spec fn ticks_over_frames(carry: int, deltas: Seq<u64>, max: u64, step: int) -> int
    decreases deltas.len(),
{
    if deltas.len() == 0 {
        0
    } else {
        ticks_over_frames(carry, deltas.drop_last(), max, step) + ticks_due(
            carry_after_frames(carry, deltas.drop_last(), max, step),
            clamp_delta(deltas.last(), max),
            step,
        )
    }
}

/// A fixed-timestep driver.
pub struct GameLoop {
    config: GameLoopConfig,
    accumulator: u64,
    frame_count: u64,
}

impl GameLoop {
    /// The configuration the driver was made with.
    pub closed spec fn config(&self) -> GameLoopConfig {
        self.config
    }

    /// Time carried over from earlier frames, in nanoseconds.
    pub closed spec fn carry(&self) -> int {
        self.accumulator as int
    }

    /// Simulation steps taken so far.
    pub closed spec fn frames(&self) -> int {
        self.frame_count as int
    }

    /// Between frames a driver with a valid frame rate carries less than one step.
    pub open spec fn wf(&self) -> bool {
        self.config().valid() ==> self.carry() < self.config().step()
    }

    /// A driver that has taken no step and carries no time.
    pub fn new(config: GameLoopConfig) -> (driver: GameLoop)
        ensures
            driver.config() == config,
            driver.carry() == 0,
            driver.frames() == 0,
            driver.wf(),
    {
        proof {
            if config.valid() {
                lemma_step_bounds(config.target_fps);
            }
        }
        GameLoop { config, accumulator: 0, frame_count: 0 }
    }

    /// Length of one simulation step in nanoseconds.
    pub fn fixed_step(&self) -> (step: u64)
        requires
            self.config().valid(),
        ensures
            step == self.config().step(),
            1 <= step <= NANOS_PER_SECOND,
    {
        self.config.fixed_step()
    }

    /// Whether the driver was made with a frame rate that it can run at.
    pub fn has_valid_rate(&self) -> (ok: bool)
        ensures
            ok == self.config().valid(),
    {
        self.config.is_valid()
    }

    /// Time carried over from earlier frames, in nanoseconds.
    pub fn accumulator(&self) -> (carry: u64)
        ensures
            carry == self.carry(),
    {
        self.accumulator
    }

    /// Simulation steps taken so far.
    pub fn frame_count(&self) -> (frames: u64)
        ensures
            frames == self.frames(),
    {
        self.frame_count
    }

    /// Whether `advance` can take a frame of `elapsed` nanoseconds: the frame
    /// rate is valid and the step counter will not overflow.
    pub fn can_advance(&self, elapsed: u64) -> (ok: bool)
        requires
            self.wf(),
        ensures
            ok == (self.config().valid() && self.frames() + ticks_due(
                self.carry(),
                clamp_delta(elapsed, self.config().max_frame_time),
                self.config().step(),
            ) <= u64::MAX),
    {
        if !self.config.is_valid() {
            return false;
        }
        let step: u64 = self.config.fixed_step();
        let delta: u64 = if elapsed > self.config.max_frame_time {
            self.config.max_frame_time
        } else {
            elapsed
        };
        let total: u128 = self.accumulator as u128 + delta as u128;
        let due: u128 = total / (step as u128);
        due <= (u64::MAX - self.frame_count) as u128
    }

    /// Feeds one frame of `elapsed` nanoseconds into the driver and returns how
    /// many simulation steps the caller must run now, each of them
    /// `fixed_step()` long.
    ///
    /// The frame is capped at `max_frame_time`, added to the carry, and split
    /// into whole steps; the remainder is the new carry.
    pub fn advance(&mut self, elapsed: u64) -> (ticks: u64)
        requires
            old(self).wf(),
            old(self).config().valid(),
            old(self).frames() + ticks_due(
                old(self).carry(),
                clamp_delta(elapsed, old(self).config().max_frame_time),
                old(self).config().step(),
            ) <= u64::MAX,
        ensures
            final(self).config() == old(self).config(),
            ticks == ticks_due(
                old(self).carry(),
                clamp_delta(elapsed, old(self).config().max_frame_time),
                old(self).config().step(),
            ),
            final(self).carry() == carry_after(
                old(self).carry(),
                clamp_delta(elapsed, old(self).config().max_frame_time),
                old(self).config().step(),
            ),
            final(self).frames() == old(self).frames() + ticks,
            final(self).wf(),
    {
        let step: u64 = self.config.fixed_step();
        let delta: u64 = if elapsed > self.config.max_frame_time {
            self.config.max_frame_time
        } else {
            elapsed
        };
        let total: u128 = self.accumulator as u128 + delta as u128;
        let due: u128 = total / (step as u128);
        let rest: u128 = total % (step as u128);
        proof {
            lemma_mod_bound(total as int, step as int);
        }
        let ticks: u64 = due as u64;
        self.accumulator = rest as u64;
        self.frame_count = self.frame_count + ticks;
        ticks
    }

    /// Runs the driver over the frames that were measured: each frame is fed
    /// in, and `update_fn` is called once for every step that is due, every
    /// time with the length of the fixed step. Returns the number of calls.
    ///
    /// Nothing is asked of `update_fn` but that it takes the length of the
    /// fixed step: no measured or capped frame time can reach it.
    pub fn run<F: Fn(u64)>(&mut self, deltas: &Vec<u64>, update_fn: &F) -> (ticks: u64)
        requires
            old(self).wf(),
            old(self).config().valid(),
            update_fn.requires((old(self).config().step() as u64,)),
            old(self).frames() + ticks_over_frames(
                old(self).carry() as int,
                deltas@,
                old(self).config().max_frame_time,
                old(self).config().step() as int,
            ) <= u64::MAX,
        ensures
            final(self).config() == old(self).config(),
            ticks == ticks_over_frames(
                old(self).carry() as int,
                deltas@,
                old(self).config().max_frame_time,
                old(self).config().step() as int,
            ),
            final(self).carry() == carry_after_frames(
                old(self).carry() as int,
                deltas@,
                old(self).config().max_frame_time,
                old(self).config().step() as int,
            ),
            final(self).frames() == old(self).frames() + ticks,
            final(self).wf(),
    {
        let ghost carry = self.carry() as int;
        let ghost max = self.config().max_frame_time;
        let ghost step = self.config().step() as int;
        let length = self.fixed_step();
        let mut ticks: u64 = 0;
        let mut i: usize = 0;
        proof {
            assert(deltas@.take(0) =~= Seq::<u64>::empty());
        }
        while i < deltas.len()
            invariant
                i <= deltas@.len(),
                self.wf(),
                self.config() == old(self).config(),
                self.config().valid(),
                carry == old(self).carry(),
                max == self.config().max_frame_time,
                step == self.config().step(),
                length == step,
                0 <= carry < step,
                update_fn.requires((length,)),
                old(self).frames() + ticks_over_frames(carry, deltas@, max, step) <= u64::MAX,
                ticks == ticks_over_frames(carry, deltas@.take(i as int), max, step),
                self.carry() == carry_after_frames(carry, deltas@.take(i as int), max, step),
                self.frames() == old(self).frames() + ticks,
            decreases deltas@.len() - i,
        {
            proof {
                assert(deltas@.take(i + 1).drop_last() =~= deltas@.take(i as int));
                assert(deltas@.take(i + 1).last() == deltas@[i as int]);
                lemma_ticks_grow(carry, deltas@, max, step, i + 1);
            }
            let due = self.advance(deltas[i]);
            let mut taken: u64 = 0;
            while taken < due
                invariant
                    taken <= due,
                    update_fn.requires((length,)),
                decreases due - taken,
            {
                update_fn(length);
                taken = taken + 1;
            }
            ticks = ticks + due;
            i = i + 1;
        }
        proof {
            assert(deltas@.take(deltas@.len() as int) =~= deltas@);
        }
        ticks
    }
}

/// At a valid frame rate one step lasts between a nanosecond and a second.
pub proof fn lemma_step_bounds(fps: u32)
    requires
        0 < fps <= NANOS_PER_SECOND,
    ensures
        1 <= NANOS_PER_SECOND as int / fps as int <= NANOS_PER_SECOND,
{
    let total = NANOS_PER_SECOND as int;
    let rate = fps as int;
    let q = total / rate;
    let r = total % rate;
    lemma_fundamental_div_mod(total, rate);
    lemma_mod_bound(total, rate);
    assert(q >= 1) by (nonlinear_arith)
        requires
            total == rate * q + r,
            0 <= r,
            r < rate,
            0 < rate,
            rate <= total,
    ;
    assert(q <= total) by (nonlinear_arith)
        requires
            total == rate * q + r,
            0 <= r,
            1 <= rate,
            q >= 1,
    ;
}

/// Feeding `a` and then `b` takes as many steps, and leaves the same carry, as
/// feeding `a + b` at once.
pub proof fn lemma_split_frame(carry: int, a: int, b: int, step: int)
    requires
        0 <= carry,
        0 <= a,
        0 <= b,
        0 < step,
    ensures
        ticks_due(carry, a, step) + ticks_due(carry_after(carry, a, step), b, step) == ticks_due(
            carry,
            a + b,
            step,
        ),
        carry_after(carry_after(carry, a, step), b, step) == carry_after(carry, a + b, step),
{
    let x = carry + a;
    let q1 = x / step;
    let r1 = x % step;
    let q2 = (r1 + b) / step;
    let r2 = (r1 + b) % step;
    lemma_fundamental_div_mod(x, step);
    lemma_fundamental_div_mod(r1 + b, step);
    lemma_mod_bound(r1 + b, step);
    assert(x + b == (q1 + q2) * step + r2) by (nonlinear_arith)
        requires
            x == step * q1 + r1,
            r1 + b == step * q2 + r2,
    ;
    lemma_fundamental_div_mod_converse(x + b, step, q1 + q2, r2);
}

/// However the elapsed time is cut into frames, the driver ends where one
/// frame of the whole (capped) time would have taken it: the steps taken and
/// the carry depend on the total alone.
pub proof fn lemma_frames_closed_form(carry: int, deltas: Seq<u64>, max: u64, step: int)
    requires
        0 <= carry < step,
    ensures
        0 <= clamped_sum(deltas, max),
        ticks_over_frames(carry, deltas, max, step) == ticks_due(
            carry,
            clamped_sum(deltas, max),
            step,
        ),
        carry_after_frames(carry, deltas, max, step) == carry_after(
            carry,
            clamped_sum(deltas, max),
            step,
        ),
        0 <= carry_after_frames(carry, deltas, max, step) < step,
    decreases deltas.len(),
{
    if deltas.len() == 0 {
        lemma_small_mod(carry as nat, step as nat);
        lemma_basic_div(carry, step);
    } else {
        let front = deltas.drop_last();
        let last = clamp_delta(deltas.last(), max);
        lemma_frames_closed_form(carry, front, max, step);
        lemma_split_frame(carry, clamped_sum(front, max), last, step);
        lemma_mod_bound(carry + clamped_sum(deltas, max), step);
    }
}

/// The steps taken over the first `n` of the frames are none below nought
/// and no more than those taken over all of them, and the carry stays
/// below one step.
pub proof fn lemma_ticks_grow(carry: int, deltas: Seq<u64>, max: u64, step: int, n: int)
    requires
        0 <= carry < step,
        0 <= n <= deltas.len(),
    ensures
        0 <= ticks_over_frames(carry, deltas.take(n), max, step) <= ticks_over_frames(
            carry,
            deltas,
            max,
            step,
        ),
        0 <= carry_after_frames(carry, deltas.take(n), max, step) < step,
    decreases deltas.len(),
{
    lemma_frames_closed_form(carry, deltas.take(n), max, step);
    let part = clamped_sum(deltas.take(n), max);
    lemma_mod_bound(carry + part, step);
    vstd::arithmetic::div_mod::lemma_div_pos_is_pos(carry + part, step);
    if n == deltas.len() {
        assert(deltas.take(n) =~= deltas);
    } else {
        lemma_ticks_grow(carry, deltas.drop_last(), max, step, n);
        assert(deltas.drop_last().take(n) =~= deltas.take(n));
        lemma_frames_closed_form(carry, deltas.drop_last(), max, step);
        let front = clamped_sum(deltas.drop_last(), max);
        lemma_mod_bound(carry + front, step);
        let rest = carry_after_frames(carry, deltas.drop_last(), max, step);
        vstd::arithmetic::div_mod::lemma_div_pos_is_pos(
            rest + clamp_delta(deltas.last(), max),
            step,
        );
    }
}

/// Frame-rate independence: two runs that start with the same carry and see
/// the same total (capped) time take the same number of steps and end with the
/// same carry, whatever the lengths of their frames.
pub proof fn lemma_frame_rate_independent(
    carry: int,
    first: Seq<u64>,
    second: Seq<u64>,
    max: u64,
    step: int,
)
    requires
        0 <= carry < step,
        clamped_sum(first, max) == clamped_sum(second, max),
    ensures
        ticks_over_frames(carry, first, max, step) == ticks_over_frames(carry, second, max, step),
        carry_after_frames(carry, first, max, step) == carry_after_frames(
            carry,
            second,
            max,
            step,
        ),
{
    lemma_frames_closed_form(carry, first, max, step);
    lemma_frames_closed_form(carry, second, max, step);
}

} // verus!
