//! Trail configurations for common things.

use vstd::prelude::*;
use crate::num::Scalar;
use crate::trail_system::TrailConfig;

verus! {

/// The trail of a ball: short, light blue, stronger with speed.
pub open spec fn ball_config<T: Scalar>() -> TrailConfig<T> {
    TrailConfig {
        max_segments: 20,
        segment_interval: T::ratio(2, 100),
        segment_life: T::ratio(1, 2),
        base_color: [T::ratio(1, 2), T::ratio(1, 2), T::ratio(1, 1), T::ratio(8, 10)],
        base_size: T::ratio(2, 1),
        fade_enabled: true,
        shrink_enabled: true,
        min_alpha: T::ratio(1, 10),
        fade_speed: T::ratio(3, 1),
        velocity_based: true,
        min_distance: T::ratio(3, 1),
    }
}

/// The trail of a fireball: orange red and thick.
pub open spec fn fireball_config<T: Scalar>() -> TrailConfig<T> {
    TrailConfig {
        max_segments: 15,
        segment_interval: T::ratio(3, 100),
        segment_life: T::ratio(8, 10),
        base_color: [T::ratio(1, 1), T::ratio(3, 10), T::ratio(0, 1), T::ratio(9, 10)],
        base_size: T::ratio(4, 1),
        fade_enabled: true,
        shrink_enabled: true,
        min_alpha: T::ratio(2, 10),
        fade_speed: T::ratio(2, 1),
        velocity_based: true,
        min_distance: T::ratio(5, 1),
    }
}

/// The trail of a ship's engine: cyan, dense, and it does not shrink.
pub open spec fn spaceship_config<T: Scalar>() -> TrailConfig<T> {
    TrailConfig {
        max_segments: 25,
        segment_interval: T::ratio(1, 100),
        segment_life: T::ratio(3, 10),
        base_color: [T::ratio(2, 10), T::ratio(8, 10), T::ratio(1, 1), T::ratio(7, 10)],
        base_size: T::ratio(3, 1),
        fade_enabled: true,
        shrink_enabled: false,
        min_alpha: T::ratio(0, 1),
        fade_speed: T::ratio(4, 1),
        velocity_based: true,
        min_distance: T::ratio(2, 1),
    }
}

/// The trail of a spell: purple, long and slow to fade.
pub open spec fn magic_config<T: Scalar>() -> TrailConfig<T> {
    TrailConfig {
        max_segments: 30,
        segment_interval: T::ratio(4, 100),
        segment_life: T::ratio(3, 2),
        base_color: [T::ratio(8, 10), T::ratio(2, 10), T::ratio(1, 1), T::ratio(6, 10)],
        base_size: T::ratio(5, 1),
        fade_enabled: true,
        shrink_enabled: true,
        min_alpha: T::ratio(1, 10),
        fade_speed: T::ratio(3, 2),
        velocity_based: false,
        min_distance: T::ratio(4, 1),
    }
}

/// The trail of a plain particle: white, half transparent and sparse.
pub open spec fn particle_config<T: Scalar>() -> TrailConfig<T> {
    TrailConfig {
        max_segments: 10,
        segment_interval: T::ratio(1, 10),
        segment_life: T::ratio(1, 1),
        base_color: [T::ratio(1, 1), T::ratio(1, 1), T::ratio(1, 1), T::ratio(1, 2)],
        base_size: T::ratio(2, 1),
        fade_enabled: true,
        shrink_enabled: true,
        min_alpha: T::ratio(0, 1),
        fade_speed: T::ratio(2, 1),
        velocity_based: false,
        min_distance: T::ratio(8, 1),
    }
}

/// The trail of a ball.
pub fn pong_ball_trail<T: Scalar>() -> (config: TrailConfig<T>)
    ensures
        config == ball_config::<T>(),
{
    TrailConfig {
        max_segments: 20,
        segment_interval: T::from_ratio(2, 100),
        segment_life: T::from_ratio(1, 2),
        base_color: [
            T::from_ratio(1, 2),
            T::from_ratio(1, 2),
            T::from_ratio(1, 1),
            T::from_ratio(8, 10),
        ],
        base_size: T::from_ratio(2, 1),
        fade_enabled: true,
        shrink_enabled: true,
        min_alpha: T::from_ratio(1, 10),
        fade_speed: T::from_ratio(3, 1),
        velocity_based: true,
        min_distance: T::from_ratio(3, 1),
    }
}

/// The trail of a fireball.
pub fn fireball_trail<T: Scalar>() -> (config: TrailConfig<T>)
    ensures
        config == fireball_config::<T>(),
{
    TrailConfig {
        max_segments: 15,
        segment_interval: T::from_ratio(3, 100),
        segment_life: T::from_ratio(8, 10),
        base_color: [
            T::from_ratio(1, 1),
            T::from_ratio(3, 10),
            T::from_ratio(0, 1),
            T::from_ratio(9, 10),
        ],
        base_size: T::from_ratio(4, 1),
        fade_enabled: true,
        shrink_enabled: true,
        min_alpha: T::from_ratio(2, 10),
        fade_speed: T::from_ratio(2, 1),
        velocity_based: true,
        min_distance: T::from_ratio(5, 1),
    }
}

/// The trail of a ship's engine.
pub fn spaceship_trail<T: Scalar>() -> (config: TrailConfig<T>)
    ensures
        config == spaceship_config::<T>(),
{
    TrailConfig {
        max_segments: 25,
        segment_interval: T::from_ratio(1, 100),
        segment_life: T::from_ratio(3, 10),
        base_color: [
            T::from_ratio(2, 10),
            T::from_ratio(8, 10),
            T::from_ratio(1, 1),
            T::from_ratio(7, 10),
        ],
        base_size: T::from_ratio(3, 1),
        fade_enabled: true,
        shrink_enabled: false,
        min_alpha: T::from_ratio(0, 1),
        fade_speed: T::from_ratio(4, 1),
        velocity_based: true,
        min_distance: T::from_ratio(2, 1),
    }
}

/// The trail of a spell.
pub fn magic_trail<T: Scalar>() -> (config: TrailConfig<T>)
    ensures
        config == magic_config::<T>(),
{
    TrailConfig {
        max_segments: 30,
        segment_interval: T::from_ratio(4, 100),
        segment_life: T::from_ratio(3, 2),
        base_color: [
            T::from_ratio(8, 10),
            T::from_ratio(2, 10),
            T::from_ratio(1, 1),
            T::from_ratio(6, 10),
        ],
        base_size: T::from_ratio(5, 1),
        fade_enabled: true,
        shrink_enabled: true,
        min_alpha: T::from_ratio(1, 10),
        fade_speed: T::from_ratio(3, 2),
        velocity_based: false,
        min_distance: T::from_ratio(4, 1),
    }
}

/// The trail of a plain particle.
pub fn simple_particle_trail<T: Scalar>() -> (config: TrailConfig<T>)
    ensures
        config == particle_config::<T>(),
{
    TrailConfig {
        max_segments: 10,
        segment_interval: T::from_ratio(1, 10),
        segment_life: T::from_ratio(1, 1),
        base_color: [
            T::from_ratio(1, 1),
            T::from_ratio(1, 1),
            T::from_ratio(1, 1),
            T::from_ratio(1, 2),
        ],
        base_size: T::from_ratio(2, 1),
        fade_enabled: true,
        shrink_enabled: true,
        min_alpha: T::from_ratio(0, 1),
        fade_speed: T::from_ratio(2, 1),
        velocity_based: false,
        min_distance: T::from_ratio(8, 1),
    }
}

} // verus!
