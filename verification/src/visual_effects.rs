//! Visual effects: glows, the fading points that a thing leaves on its way,
//! colours that change into one another, and sizes that pulse.

use vstd::prelude::*;
use crate::num::Scalar;
use crate::physics::Vector;

pub mod effects;

verus! {

/// A glow around a thing.
#[derive(Debug, Clone, Copy, PartialEq)]
pub struct GlowEffect<T> {
    pub color: [T; 4],
    pub intensity: T,
    pub size: T,
    pub layers: u32,
}

/// A point of a trail.
#[derive(Debug, Clone, Copy, PartialEq)]
pub struct TrailPoint<T> {
    pub position: Vector<T>,
    pub color: [T; 4],
    pub size: T,
    pub life: T,
    pub max_life: T,
}

/// The fading points that a thing leaves on its way, the newest first.
#[derive(Debug, Clone)]
pub struct TrailEffect<T> {
    pub points: Vec<TrailPoint<T>>,
    pub max_points: usize,
    pub fade_speed: T,
    pub min_alpha: T,
}

/// A plain glow: white, of intensity one and size two, in three layers.
pub open spec fn plain_glow<T: Scalar>() -> GlowEffect<T> {
    GlowEffect {
        color: [T::ratio(1, 1), T::ratio(1, 1), T::ratio(1, 1), T::ratio(1, 1)],
        intensity: T::ratio(1, 1),
        size: T::ratio(2, 1),
        layers: 3,
    }
}

/// A point after `delta_time` more of its life.
pub open spec fn faded<T: Scalar>(point: TrailPoint<T>, delta_time: T) -> TrailPoint<T> {
    TrailPoint { life: point.life.difference(delta_time), ..point }
}

/// Whether a point has life left.
pub open spec fn glows<T: Scalar>(point: TrailPoint<T>) -> bool {
    T::ratio(0, 1).below(point.life)
}

/// The points that still have life left after `delta_time`, faded, in
/// their order.
pub open spec fn remaining<T: Scalar>(points: Seq<TrailPoint<T>>, delta_time: T) -> Seq<TrailPoint<T>>
    decreases points.len(),
{
    if points.len() == 0 {
        Seq::empty()
    } else if glows(faded(points.last(), delta_time)) {
        remaining(points.drop_last(), delta_time).push(faded(points.last(), delta_time))
    } else {
        remaining(points.drop_last(), delta_time)
    }
}

/// The points after a new one: it comes first, and the oldest leave where
/// there are more than `limit`.
pub open spec fn with_point<T: Scalar>(points: Seq<TrailPoint<T>>, point: TrailPoint<T>, limit: nat) -> Seq<
    TrailPoint<T>,
> {
    if points.len() + 1 > limit {
        (seq![point] + points).take(limit as int)
    } else {
        seq![point] + points
    }
}

impl<T: Scalar> Default for GlowEffect<T> {
    fn default() -> (glow: Self)
        ensures
            glow == plain_glow::<T>(),
    {
        let unit = T::from_ratio(1, 1);
        GlowEffect { color: [unit, unit, unit, unit], intensity: unit, size: T::from_ratio(2, 1), layers: 3 }
    }
}

impl<T: Scalar> TrailPoint<T> {
    /// A point with its whole life before it.
    pub fn new(position: Vector<T>, color: [T; 4], size: T, life: T) -> (point: Self)
        ensures
            point == (TrailPoint { position, color, size, life, max_life: life }),
    {
        TrailPoint { position, color, size, life, max_life: life }
    }

    /// Ages the point, and says whether it still has life left.
    pub fn update(&mut self, delta_time: T) -> (alive: bool)
        ensures
            *final(self) == faded(*old(self), delta_time),
            alive == glows(faded(*old(self), delta_time)),
    {
        self.life = self.life.minus(delta_time);
        T::from_ratio(0, 1).less_than(self.life)
    }

    /// The alpha of the point: the part of its life that it has left.
    pub fn alpha(&self) -> (alpha: T)
        ensures
            alpha == self.life.quotient(self.max_life),
    {
        self.life.over(self.max_life)
    }
}

impl<T: Scalar> TrailEffect<T> {
    /// A trail without points that fades at speed two down to nought.
    pub fn new(max_points: usize) -> (trail: Self)
        ensures
            trail.points@.len() == 0,
            trail.max_points == max_points,
            trail.fade_speed == T::ratio(2, 1),
            trail.min_alpha == T::ratio(0, 1),
    {
        TrailEffect {
            points: Vec::new(),
            max_points,
            fade_speed: T::from_ratio(2, 1),
            min_alpha: T::from_ratio(0, 1),
        }
    }

    /// Puts a new point at the head of the trail.
    pub fn add_point(&mut self, position: Vector<T>, color: [T; 4], size: T, life: T)
        ensures
            final(self).points@ == with_point(
                old(self).points@,
                (TrailPoint { position, color, size, life, max_life: life }),
                old(self).max_points as nat,
            ),
            final(self).max_points == old(self).max_points,
            final(self).fade_speed == old(self).fade_speed,
            final(self).min_alpha == old(self).min_alpha,
    {
        let point = TrailPoint::new(position, color, size, life);
        self.points.insert(0, point);
        let ghost full = self.points@;
        proof {
            assert(full =~= seq![point] + old(self).points@);
        }
        while self.points.len() > self.max_points
            invariant
                self.max_points == old(self).max_points,
                self.fade_speed == old(self).fade_speed,
                self.min_alpha == old(self).min_alpha,
                self.points@.len() <= full.len(),
                self.points@ == full.take(self.points@.len() as int),
                self.points@.len() >= self.max_points || self.points@.len() == full.len(),
            decreases self.points@.len(),
        {
            let ghost before = self.points@;
            self.points.pop();
            proof {
                assert(self.points@ =~= full.take(before.len() - 1));
            }
        }
        proof {
            assert(full.take(full.len() as int) =~= full);
        }
    }

    /// Ages the points and drops those without life, in their order.
    pub fn update(&mut self, delta_time: T)
        ensures
            final(self).points@ == remaining(old(self).points@, delta_time),
            final(self).max_points == old(self).max_points,
            final(self).fade_speed == old(self).fade_speed,
            final(self).min_alpha == old(self).min_alpha,
    {
        let ghost all = self.points@;
        let mut kept: Vec<TrailPoint<T>> = Vec::new();
        let mut i: usize = 0;
        while i < self.points.len()
            invariant
                i <= all.len(),
                self.points@ == all,
                self.max_points == old(self).max_points,
                self.fade_speed == old(self).fade_speed,
                self.min_alpha == old(self).min_alpha,
                kept@ == remaining(all.take(i as int), delta_time),
            decreases all.len() - i,
        {
            let mut point = self.points[i];
            proof {
                assert(all.take(i + 1).drop_last() =~= all.take(i as int));
            }
            if point.update(delta_time) {
                kept.push(point);
            }
            i = i + 1;
        }
        proof {
            assert(all.take(all.len() as int) =~= all);
        }
        self.points = kept;
    }

    /// Takes every point away.
    pub fn clear(&mut self)
        ensures
            final(self).points@.len() == 0,
            final(self).max_points == old(self).max_points,
            final(self).fade_speed == old(self).fade_speed,
            final(self).min_alpha == old(self).min_alpha,
    {
        self.points.clear();
    }
}

/// A colour that changes into another over a time.
#[derive(Debug, Clone, Copy, PartialEq)]
pub struct ColorTransition<T> {
    pub start_color: [T; 4],
    pub end_color: [T; 4],
    pub duration: T,
    pub time: T,
    pub active: bool,
    /// Whether the change begins again when it has ended.
    pub loop_effect: bool,
}

/// A size that swings about a base.
#[derive(Debug, Clone, Copy, PartialEq)]
pub struct PulseEffect<T> {
    pub base_scale: T,
    pub amplitude: T,
    pub frequency: T,
    pub time: T,
    pub active: bool,
}

/// How far a transition has come after the time `time`: the part of the
/// duration that has passed, at most one; for a transition that begins
/// again, what that part is beyond a whole number.
pub open spec fn progress<T: Scalar>(transition: ColorTransition<T>, time: T) -> T {
    if transition.loop_effect {
        time.quotient(transition.duration).fraction()
    } else {
        time.quotient(transition.duration).smaller(T::ratio(1, 1))
    }
}

/// A number between two others: `from` where `part` is nought, `to` where
/// it is one.
pub open spec fn between<T: Scalar>(from: T, to: T, part: T) -> T {
    from.sum(to.difference(from).product(part))
}

/// The colour between two colours.
pub open spec fn blend<T: Scalar>(from: [T; 4], to: [T; 4], part: T) -> [T; 4] {
    [
        between(from[0], to[0], part),
        between(from[1], to[1], part),
        between(from[2], to[2], part),
        between(from[3], to[3], part),
    ]
}

/// Whether a transition that does not begin again has ended at the time
/// `time`.
pub open spec fn ended<T: Scalar>(transition: ColorTransition<T>, time: T) -> bool {
    !transition.loop_effect && transition.duration.within(time)
}

/// A transition after `delta_time`: one that is not active stays as it is;
/// an active one is `delta_time` older, and no longer active once it has
/// ended.
pub open spec fn transition_after<T: Scalar>(transition: ColorTransition<T>, delta_time: T) -> ColorTransition<
    T,
> {
    if !transition.active {
        transition
    } else {
        ColorTransition {
            time: transition.time.sum(delta_time),
            active: !ended(transition, transition.time.sum(delta_time)),
            ..transition
        }
    }
}

/// The colour that a transition shows after `delta_time`: its end colour
/// where it is not active or has ended, the colour between its two colours
/// else.
pub open spec fn color_after<T: Scalar>(transition: ColorTransition<T>, delta_time: T) -> [T; 4] {
    if !transition.active || ended(transition, transition.time.sum(delta_time)) {
        transition.end_color
    } else {
        blend(
            transition.start_color,
            transition.end_color,
            progress(transition, transition.time.sum(delta_time)),
        )
    }
}

/// A pulse after `delta_time`: an active one is `delta_time` older.
pub open spec fn pulse_after<T: Scalar>(pulse: PulseEffect<T>, delta_time: T) -> PulseEffect<T> {
    if pulse.active {
        PulseEffect { time: pulse.time.sum(delta_time), ..pulse }
    } else {
        pulse
    }
}

/// The size that a pulse shows: its base, and where it is active, more or
/// less by its amplitude as the sine of its time goes.
pub open spec fn scale_of<T: Scalar>(pulse: PulseEffect<T>) -> T {
    if pulse.active {
        pulse.base_scale.sum(pulse.amplitude.product(pulse.time.product(pulse.frequency).sine()))
    } else {
        pulse.base_scale
    }
}

impl<T: Scalar> ColorTransition<T> {
    /// A transition that has not begun.
    pub fn new(start_color: [T; 4], end_color: [T; 4], duration: T) -> (transition: Self)
        ensures
            transition == (ColorTransition {
                start_color,
                end_color,
                duration,
                time: T::ratio(0, 1),
                active: false,
                loop_effect: false,
            }),
    {
        ColorTransition {
            start_color,
            end_color,
            duration,
            time: T::from_ratio(0, 1),
            active: false,
            loop_effect: false,
        }
    }

    /// Begins the transition anew.
    pub fn start(&mut self)
        ensures
            *final(self) == (ColorTransition { time: T::ratio(0, 1), active: true, ..*old(self) }),
    {
        self.time = T::from_ratio(0, 1);
        self.active = true;
    }

    /// Moves the transition on by `delta_time` and gives the colour that
    /// it shows.
    pub fn update(&mut self, delta_time: T) -> (color: [T; 4])
        ensures
            *final(self) == transition_after(*old(self), delta_time),
            color == color_after(*old(self), delta_time),
    {
        if !self.active {
            return self.end_color;
        }
        self.time = self.time.plus(delta_time);
        let part = if self.loop_effect {
            self.time.over(self.duration).fract()
        } else {
            self.time.over(self.duration).min_of(T::from_ratio(1, 1))
        };
        if !self.loop_effect && self.duration.at_most(self.time) {
            self.active = false;
            return self.end_color;
        }
        let from = self.start_color;
        let to = self.end_color;
        [
            from[0].plus(to[0].minus(from[0]).times(part)),
            from[1].plus(to[1].minus(from[1]).times(part)),
            from[2].plus(to[2].minus(from[2]).times(part)),
            from[3].plus(to[3].minus(from[3]).times(part)),
        ]
    }

    /// Lets the transition begin again when it has ended, or not.
    pub fn set_loop(&mut self, loop_effect: bool)
        ensures
            *final(self) == (ColorTransition { loop_effect, ..*old(self) }),
    {
        self.loop_effect = loop_effect;
    }
}

impl<T: Scalar> PulseEffect<T> {
    /// An active pulse at time nought.
    pub fn new(base_scale: T, amplitude: T, frequency: T) -> (pulse: Self)
        ensures
            pulse == (PulseEffect {
                base_scale,
                amplitude,
                frequency,
                time: T::ratio(0, 1),
                active: true,
            }),
    {
        PulseEffect { base_scale, amplitude, frequency, time: T::from_ratio(0, 1), active: true }
    }

    /// Moves the pulse on by `delta_time` and gives the size that it
    /// shows.
    pub fn update(&mut self, delta_time: T) -> (scale: T)
        ensures
            *final(self) == pulse_after(*old(self), delta_time),
            scale == scale_of(pulse_after(*old(self), delta_time)),
    {
        if !self.active {
            return self.base_scale;
        }
        self.time = self.time.plus(delta_time);
        self.base_scale.plus(self.amplitude.times(self.time.times(self.frequency).sin()))
    }

    /// Switches the pulse on or off.
    pub fn set_active(&mut self, active: bool)
        ensures
            *final(self) == (PulseEffect { active, ..*old(self) }),
    {
        self.active = active;
    }
}

} // verus!
