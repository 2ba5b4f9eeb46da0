//! The physics step: velocities gain what accelerations give them, then
//! positions move by the new velocities.
//!
//! The step is written for any number type. It neither clamps nor looks for
//! collisions; with a step length that is not finite it does nothing at all.

use vstd::prelude::*;
use crate::num::Scalar;

verus! {

/// A pair of coordinates.
#[derive(Debug, Clone, Copy, PartialEq)]
pub struct Vector<T> {
    pub x: T,
    pub y: T,
}

/// What the physics step reads and writes of one entity. An entity has the
/// components it has; the others are `None`.
#[derive(Debug, Clone, Copy, PartialEq)]
pub struct Body<T> {
    pub position: Option<Vector<T>>,
    pub velocity: Option<Vector<T>>,
    pub acceleration: Option<Vector<T>>,
}

/// `value` after it has changed at `rate` for the time `dt`.
pub open spec fn advanced<T: Scalar>(value: Vector<T>, rate: Vector<T>, dt: T) -> Vector<T> {
    Vector { x: value.x.sum(rate.x.product(dt)), y: value.y.sum(rate.y.product(dt)) }
}

/// The velocity of a body after a step: advanced by the acceleration where
/// the body has both.
pub open spec fn velocity_after<T: Scalar>(body: Body<T>, dt: T) -> Option<Vector<T>> {
    match (body.velocity, body.acceleration) {
        (Some(velocity), Some(acceleration)) => Some(advanced(velocity, acceleration, dt)),
        _ => body.velocity,
    }
}

/// The position of a body after a step: advanced by the velocity the body
/// has after the step, where it has both.
pub open spec fn position_after<T: Scalar>(body: Body<T>, dt: T) -> Option<Vector<T>> {
    match (body.position, velocity_after(body, dt)) {
        (Some(position), Some(velocity)) => Some(advanced(position, velocity, dt)),
        _ => body.position,
    }
}

/// A body after a step.
pub open spec fn body_after<T: Scalar>(body: Body<T>, dt: T) -> Body<T> {
    Body {
        position: position_after(body, dt),
        velocity: velocity_after(body, dt),
        acceleration: body.acceleration,
    }
}

/// Lets `value` change at `rate` for the time `dt`.
pub fn advance<T: Scalar>(value: &mut Vector<T>, rate: &Vector<T>, dt: T)
    ensures
        *final(value) == advanced(*old(value), *rate, dt),
{
    value.x = value.x.plus(rate.x.times(dt));
    value.y = value.y.plus(rate.y.times(dt));
}

/// One physics step of length `dt` over the bodies: first every velocity
/// gains what the acceleration gives it, then every position moves by the
/// new velocity. Where `dt` is not finite the step is skipped, nothing
/// changes, and the answer is `false`.
pub fn physics_step<T: Scalar>(bodies: &mut Vec<Body<T>>, dt: T) -> (stepped: bool)
    ensures
        stepped == dt.finite(),
        final(bodies)@.len() == old(bodies)@.len(),
        stepped ==> forall|i: int|
            0 <= i < old(bodies)@.len() ==> #[trigger] final(bodies)@[i] == body_after(
                old(bodies)@[i],
                dt,
            ),
        !stepped ==> final(bodies)@ == old(bodies)@,
{
    if !dt.is_finite() {
        return false;
    }
    let count = bodies.len();
    let mut i: usize = 0;
    while i < count
        invariant
            0 <= i <= count,
            count == bodies@.len(),
            count == old(bodies)@.len(),
            forall|k: int|
                0 <= k < i ==> #[trigger] bodies@[k] == (Body {
                    velocity: velocity_after(old(bodies)@[k], dt),
                    ..old(bodies)@[k]
                }),
            forall|k: int| i <= k < count ==> bodies@[k] == old(bodies)@[k],
        decreases count - i,
    {
        let mut body = bodies[i];
        match (body.velocity, body.acceleration) {
            (Some(velocity), Some(acceleration)) => {
                let mut velocity = velocity;
                advance(&mut velocity, &acceleration, dt);
                body.velocity = Some(velocity);
            },
            _ => {},
        }
        bodies[i] = body;
        i = i + 1;
    }
    let mut j: usize = 0;
    while j < count
        invariant
            0 <= j <= count,
            count == bodies@.len(),
            count == old(bodies)@.len(),
            forall|k: int|
                0 <= k < j ==> #[trigger] bodies@[k] == body_after(old(bodies)@[k], dt),
            forall|k: int|
                j <= k < count ==> #[trigger] bodies@[k] == (Body {
                    velocity: velocity_after(old(bodies)@[k], dt),
                    ..old(bodies)@[k]
                }),
        decreases count - j,
    {
        let mut body = bodies[j];
        match (body.position, body.velocity) {
            (Some(position), Some(velocity)) => {
                let mut position = position;
                advance(&mut position, &velocity, dt);
                body.position = Some(position);
            },
            _ => {},
        }
        bodies[j] = body;
        j = j + 1;
    }
    true
}

/// Integration order: a body that has position, velocity and acceleration
/// moves by the velocity it has after the acceleration was applied, not by
/// the velocity it had before.
pub proof fn lemma_position_moves_by_new_velocity<T: Scalar>(
    position: Vector<T>,
    velocity: Vector<T>,
    acceleration: Vector<T>,
    dt: T,
)
    ensures
        body_after(
            Body {
                position: Some(position),
                velocity: Some(velocity),
                acceleration: Some(acceleration),
            },
            dt,
        ) == (Body {
            position: Some(advanced(position, advanced(velocity, acceleration, dt), dt)),
            velocity: Some(advanced(velocity, acceleration, dt)),
            acceleration: Some(acceleration),
        }),
{
}

} // verus!
