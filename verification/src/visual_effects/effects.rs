//! Effects for common uses.

use vstd::prelude::*;
use crate::num::Scalar;
use crate::visual_effects::{ColorTransition, GlowEffect, PulseEffect};

verus! {

/// A transition from red to magenta that begins again when it has ended.
pub fn rainbow_transition<T: Scalar>(duration: T) -> (transition: ColorTransition<T>)
    ensures
        transition == (ColorTransition {
            start_color: [T::ratio(1, 1), T::ratio(0, 1), T::ratio(0, 1), T::ratio(1, 1)],
            end_color: [T::ratio(1, 1), T::ratio(0, 1), T::ratio(1, 1), T::ratio(1, 1)],
            duration,
            time: T::ratio(0, 1),
            active: false,
            loop_effect: true,
        }),
{
    let zero = T::from_ratio(0, 1);
    let unit = T::from_ratio(1, 1);
    let mut transition = ColorTransition::new([unit, zero, zero, unit], [unit, zero, unit, unit], duration);
    transition.set_loop(true);
    transition
}

/// A slow pulse of a twentieth about a base, twice in a turn of time.
pub fn breathing_pulse<T: Scalar>(base_scale: T) -> (pulse: PulseEffect<T>)
    ensures
        pulse == (PulseEffect {
            base_scale,
            amplitude: T::ratio(5, 100),
            frequency: T::ratio(2, 1),
            time: T::ratio(0, 1),
            active: true,
        }),
{
    PulseEffect::new(base_scale, T::from_ratio(5, 100), T::from_ratio(2, 1))
}

/// A flash from white to a half transparent yellow in half a second.
pub fn warning_flash<T: Scalar>() -> (transition: ColorTransition<T>)
    ensures
        transition == (ColorTransition {
            start_color: [T::ratio(1, 1), T::ratio(1, 1), T::ratio(1, 1), T::ratio(1, 1)],
            end_color: [T::ratio(1, 1), T::ratio(1, 1), T::ratio(0, 1), T::ratio(1, 2)],
            duration: T::ratio(1, 2),
            time: T::ratio(0, 1),
            active: false,
            loop_effect: false,
        }),
{
    let zero = T::from_ratio(0, 1);
    let unit = T::from_ratio(1, 1);
    let half = T::from_ratio(1, 2);
    ColorTransition::new([unit, unit, unit, unit], [unit, unit, zero, half], half)
}

/// A faint white glow in two layers.
pub fn slow_glow<T: Scalar>(intensity: T) -> (glow: GlowEffect<T>)
    ensures
        glow == (GlowEffect {
            color: [T::ratio(1, 1), T::ratio(1, 1), T::ratio(1, 1), T::ratio(4, 5)],
            intensity,
            size: T::ratio(3, 2),
            layers: 2,
        }),
{
    let unit = T::from_ratio(1, 1);
    GlowEffect { color: [unit, unit, unit, T::from_ratio(4, 5)], intensity, size: T::from_ratio(3, 2), layers: 2 }
}

} // verus!
