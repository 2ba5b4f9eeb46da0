//! The collision step: what overlaps, what follows from it, and how a ball
//! is answered.
//!
//! The step has three parts. Measuring finds, for each ball, the wall it
//! touches, the paddles it overlaps and the edge over which it has left the
//! field. Deciding picks what is answered: only the first overlapping paddle
//! or brick of a ball counts in a tick, a ball that leaves the field scores
//! for the other side and is reset in the same tick, and once a ball has
//! scored the remaining balls are left alone until the next tick. Answering
//! reflects, spins, caps and resets. Measuring and answering are written for
//! any number type; deciding needs no numbers.

use vstd::prelude::*;
use crate::components::Score;
use crate::components::Side;
use crate::ecs::hit_brick;
use crate::ecs::hit_outcome;
use crate::ecs::key_of;
use crate::ecs::state_of;
use crate::ecs::wf;
use crate::ecs::BrickHit;
use crate::num::lemma_exact_quotient;
use crate::num::lemma_root_is_unique;
use crate::num::Fixed;
use crate::num::Scalar;
use crate::num::SCALE;
use crate::particles::half_turn;
use crate::particles::pi;
use crate::physics::Vector;

verus! {

/// A scoring edge of the field.
#[derive(Debug, Clone, Copy, PartialEq, Eq, Structural)]
pub enum Edge {
    /// The player's edge.
    Left,
    /// The opponent's edge.
    Right,
}

/// The side that scores when a ball leaves the field over `edge`.
pub open spec fn scorer(edge: Edge) -> Side {
    match edge {
        Edge::Left => Side::Ai,
        Edge::Right => Side::Player,
    }
}

/// Whether `overlaps[at]` is the first overlap of the list.
pub open spec fn first_at(overlaps: Seq<bool>, at: int) -> bool {
    &&& 0 <= at < overlaps.len()
    &&& overlaps[at]
    &&& forall|k: int| 0 <= k < at ==> !overlaps[k]
}

/// The position of the first overlap of the list, if there is one.
pub open spec fn first_true(overlaps: Seq<bool>) -> Option<usize> {
    if exists|at: int| first_at(overlaps, at) {
        Some((choose|at: int| first_at(overlaps, at)) as usize)
    } else {
        None
    }
}

/// What was measured of one ball in a tick.
pub struct BallContact {
    /// The ball touches the top or the bottom wall.
    pub wall: bool,
    /// For each paddle, in join order, whether the ball overlaps it.
    pub paddles: Vec<bool>,
    /// The scoring edge over which the ball has left the field, if it has.
    pub exit: Option<Edge>,
}

/// What is to be done with one ball in a tick.
#[derive(Debug, Clone, Copy, PartialEq, Eq, Structural)]
pub struct BallResponse {
    /// Reflect the vertical velocity.
    pub bounce_off_wall: bool,
    /// Answer the contact with this paddle, and with no other.
    pub paddle: Option<usize>,
    /// This side was given a point; reset the ball now.
    pub scored: Option<Side>,
}

/// The response to a contact.
pub open spec fn response_to(contact: BallContact) -> BallResponse {
    BallResponse {
        bounce_off_wall: contact.wall,
        paddle: first_true(contact.paddles@),
        scored: match contact.exit {
            Some(edge) => Some(scorer(edge)),
            None => None,
        },
    }
}

/// The score after a contact.
pub open spec fn score_after(score: Score, contact: BallContact) -> Score {
    match contact.exit {
        Some(Edge::Left) => Score { ai_score: (score.ai_score + 1) as u32, ..score },
        Some(Edge::Right) => Score { player_score: (score.player_score + 1) as u32, ..score },
        None => score,
    }
}

/// How many balls of the list are looked at in a tick: all up to and
/// including the first that has left the field.
pub open spec fn balls_processed(contacts: Seq<BallContact>) -> int
    decreases contacts.len(),
{
    if contacts.len() == 0 {
        0
    } else if contacts[0].exit is Some {
        1
    } else {
        1 + balls_processed(contacts.subrange(1, contacts.len() as int))
    }
}

/// The side that scores when a ball leaves the field over `edge`: the side
/// opposite to the edge.
pub fn scoring_side(edge: Edge) -> (side: Side)
    ensures
        side == scorer(edge),
{
    match edge {
        Edge::Left => Side::Ai,
        Edge::Right => Side::Player,
    }
}

/// The first overlap in a list of overlap tests, which is the only one that
/// is answered.
pub fn first_overlap(overlaps: &Vec<bool>) -> (hit: Option<usize>)
    ensures
        hit == first_true(overlaps@),
        match hit {
            Some(at) => first_at(overlaps@, at as int),
            None => forall|k: int| 0 <= k < overlaps@.len() ==> !overlaps@[k],
        },
{
    let mut i: usize = 0;
    while i < overlaps.len()
        invariant
            0 <= i <= overlaps.len(),
            forall|k: int| 0 <= k < i ==> !overlaps@[k],
        decreases overlaps.len() - i,
    {
        if overlaps[i] {
            proof {
                assert(first_at(overlaps@, i as int));
                let at = choose|at: int| first_at(overlaps@, at);
                assert(at == i);
            }
            return Some(i);
        }
        i = i + 1;
    }
    None
}

/// Decides what is done with one ball: a wall contact reflects it, the first
/// overlapping paddle answers it, and a ball that has left the field scores
/// for the other side at once.
pub fn resolve_ball(contact: &BallContact, score: &mut Score) -> (response: BallResponse)
    requires
        old(score).player_score < u32::MAX,
        old(score).ai_score < u32::MAX,
    ensures
        response == response_to(*contact),
        *final(score) == score_after(*old(score), *contact),
{
    let paddle = first_overlap(&contact.paddles);
    let scored = match contact.exit {
        Some(edge) => {
            let side = scoring_side(edge);
            score.award(side);
            Some(side)
        },
        None => None,
    };
    BallResponse { bounce_off_wall: contact.wall, paddle, scored }
}

/// Decides what is done with the balls of a tick, in join order. The balls
/// are looked at one after the other; the first that has left the field
/// scores and ends the pass, so at most one point is given per tick.
pub fn resolve_balls(contacts: &Vec<BallContact>, score: &mut Score) -> (responses: Vec<
    BallResponse,
>)
    requires
        old(score).player_score < u32::MAX,
        old(score).ai_score < u32::MAX,
    ensures
        responses@.len() == balls_processed(contacts@),
        responses@.len() <= contacts@.len(),
        forall|i: int|
            0 <= i < responses@.len() ==> responses@[i] == response_to(#[trigger] contacts@[i]),
        forall|i: int| 0 <= i < responses@.len() - 1 ==> (#[trigger] contacts@[i]).exit is None,
        *final(score) == (if responses@.len() == 0 {
            *old(score)
        } else {
            score_after(*old(score), contacts@[responses@.len() - 1])
        }),
{
    let mut responses: Vec<BallResponse> = Vec::new();
    let mut i: usize = 0;
    proof {
        assert(contacts@.subrange(0, contacts@.len() as int) =~= contacts@);
    }
    while i < contacts.len()
        invariant
            0 <= i <= contacts.len(),
            responses@.len() == i,
            *score == *old(score),
            score.player_score < u32::MAX,
            score.ai_score < u32::MAX,
            forall|k: int| 0 <= k < i ==> responses@[k] == response_to(#[trigger] contacts@[k]),
            forall|k: int| 0 <= k < i ==> (#[trigger] contacts@[k]).exit is None,
            balls_processed(contacts@) == i + balls_processed(
                contacts@.subrange(i as int, contacts@.len() as int),
            ),
        decreases contacts.len() - i,
    {
        let ghost rest = contacts@.subrange(i as int, contacts@.len() as int);
        proof {
            assert(rest[0] == contacts@[i as int]);
            assert(rest.subrange(1, rest.len() as int) =~= contacts@.subrange(
                i + 1,
                contacts@.len() as int,
            ));
        }
        let response = resolve_ball(&contacts[i], score);
        responses.push(response);
        if response.scored.is_some() {
            return responses;
        }
        i = i + 1;
    }
    responses
}

/// A ball meets the bricks: of the bricks it overlaps, the first in join
/// order takes the hit and no other. Returns which brick it was and what the
/// hit did; `None` where the ball overlaps no brick.
pub fn resolve_brick_contact(
    world: &mut specs::World,
    bricks: &Vec<specs::Entity>,
    overlaps: &Vec<bool>,
) -> (hit: Option<(usize, BrickHit)>)
    requires
        wf(*old(world)),
        bricks@.len() == overlaps@.len(),
    ensures
        wf(*final(world)),
        match first_true(overlaps@) {
            Some(at) => {
                &&& hit == Some((at, hit_outcome(state_of(*old(world)), key_of(bricks@[at as int]))))
                &&& state_of(*final(world)) == state_of(*old(world)).after_hit(
                    key_of(bricks@[at as int]),
                )
            },
            None => hit is None && state_of(*final(world)) == state_of(*old(world)),
        },
{
    match first_overlap(overlaps) {
        Some(at) => {
            let outcome = hit_brick(world, bricks[at]);
            Some((at, outcome))
        },
        None => None,
    }
}

/// Scoring reset: a ball that has left the field over the right edge gives
/// the player exactly one point, leaves the other side's points alone, and is
/// told to reset in the same response.
pub proof fn lemma_exit_scores_once(score: Score, contact: BallContact)
    requires
        contact.exit == Some(Edge::Right),
        score.player_score < u32::MAX,
    ensures
        score_after(score, contact).player_score == score.player_score + 1,
        score_after(score, contact).ai_score == score.ai_score,
        response_to(contact).scored == Some(Side::Player),
{
}

/// At most one ball scores in a tick: every ball looked at before the last
/// one was still in the field.
pub proof fn lemma_one_score_per_tick(contacts: Seq<BallContact>)
    ensures
        0 <= balls_processed(contacts) <= contacts.len(),
        forall|i: int|
            0 <= i < balls_processed(contacts) - 1 ==> (#[trigger] contacts[i]).exit is None,
    decreases contacts.len(),
{
    if contacts.len() > 0 && contacts[0].exit is None {
        let rest = contacts.subrange(1, contacts.len() as int);
        lemma_one_score_per_tick(rest);
        assert forall|i: int| 0 <= i < balls_processed(contacts) - 1 implies (
        #[trigger] contacts[i]).exit is None by {
            if i > 0 {
                assert(rest[i - 1] == contacts[i]);
            }
        }
    }
}

/// Sizes and speeds of a playing field. The field reaches from nil to
/// `width` and from nil to `height`; shapes are placed by their top left
/// corner.
#[derive(Debug, Clone, Copy, PartialEq)]
pub struct Field<T> {
    pub width: T,
    pub height: T,
    pub ball_size: T,
    pub paddle_width: T,
    pub paddle_height: T,
    /// The nominal speed of a ball.
    pub ball_speed: T,
    /// How much a hit at the end of a paddle adds to the speed along it.
    pub spin: T,
}

/// A body that moves: a ball.
#[derive(Debug, Clone, Copy, PartialEq)]
pub struct Moving<T> {
    pub position: Vector<T>,
    pub velocity: Vector<T>,
}

/// Whether two rectangles overlap: their intervals meet on both axes.
pub open spec fn rects_overlap<T: Scalar>(
    a: Vector<T>,
    a_size: Vector<T>,
    b: Vector<T>,
    b_size: Vector<T>,
) -> bool {
    &&& a.x.below(b.x.sum(b_size.x))
    &&& b.x.below(a.x.sum(a_size.x))
    &&& a.y.below(b.y.sum(b_size.y))
    &&& b.y.below(a.y.sum(a_size.y))
}

/// The distance between two points.
pub open spec fn distance<T: Scalar>(a: Vector<T>, b: Vector<T>) -> T {
    a.x.difference(b.x).product(a.x.difference(b.x)).sum(
        a.y.difference(b.y).product(a.y.difference(b.y)),
    ).root()
}

/// Whether two circles overlap: their centres are closer than the sum of
/// their radii.
pub open spec fn circles_meet<T: Scalar>(a: Vector<T>, radius_a: T, b: Vector<T>, radius_b: T) -> bool {
    distance(a, b).below(radius_a.sum(radius_b))
}

/// Whether a ball at height `y` touches the top wall.
pub open spec fn at_top<T: Scalar>(y: T) -> bool {
    y.within(T::ratio(0, 1))
}

/// Whether a ball at height `y` touches the bottom wall.
pub open spec fn at_bottom<T: Scalar>(y: T, field: Field<T>) -> bool {
    field.height.difference(field.ball_size).within(y)
}

/// The edge over which a ball at `x` has left the field, if it has: the left
/// edge once the whole ball is beyond it, the right edge once its corner is.
pub open spec fn exit_of<T: Scalar>(x: T, field: Field<T>) -> Option<Edge> {
    if x.below(field.ball_size.negated()) {
        Some(Edge::Left)
    } else if field.width.below(x) {
        Some(Edge::Right)
    } else {
        None
    }
}

/// A ball after it has bounced off the wall it touches: the velocity across
/// the wall is reflected and the ball is put back at the wall.
pub open spec fn bounced<T: Scalar>(ball: Moving<T>, field: Field<T>) -> Moving<T> {
    if at_top(ball.position.y) {
        Moving {
            position: Vector { x: ball.position.x, y: T::ratio(0, 1) },
            velocity: Vector { x: ball.velocity.x, y: ball.velocity.y.negated() },
        }
    } else if at_bottom(ball.position.y, field) {
        Moving {
            position: Vector { x: ball.position.x, y: field.height.difference(field.ball_size) },
            velocity: Vector { x: ball.velocity.x, y: ball.velocity.y.negated() },
        }
    } else {
        ball
    }
}

/// The speed of a velocity.
pub open spec fn speed_of<T: Scalar>(velocity: Vector<T>) -> T {
    velocity.x.product(velocity.x).sum(velocity.y.product(velocity.y)).root()
}

/// A velocity with its speed capped: above one and a half times the nominal
/// speed it is scaled to one and a fifth of it.
pub open spec fn capped<T: Scalar>(velocity: Vector<T>, nominal: T) -> Vector<T> {
    if nominal.product(T::ratio(3, 2)).below(speed_of(velocity)) {
        Vector {
            x: velocity.x.quotient(speed_of(velocity)).product(nominal).product(T::ratio(6, 5)),
            y: velocity.y.quotient(speed_of(velocity)).product(nominal).product(T::ratio(6, 5)),
        }
    } else {
        velocity
    }
}

/// How far from the middle of a paddle at `paddle_y` a ball at `ball_y` has
/// hit it, as a part of half the paddle's height.
pub open spec fn hit_offset<T: Scalar>(ball_y: T, paddle_y: T, field: Field<T>) -> T {
    ball_y.sum(field.ball_size.quotient(T::ratio(2, 1))).difference(
        paddle_y.sum(field.paddle_height.quotient(T::ratio(2, 1))),
    ).quotient(field.paddle_height.quotient(T::ratio(2, 1)))
}

/// The velocity of a ball after a paddle has answered it: reflected across
/// the paddle, spun along it by where it hit, and capped.
pub open spec fn returned<T: Scalar>(ball_y: T, paddle_y: T, velocity: Vector<T>, field: Field<T>) -> Vector<
    T,
> {
    capped(
        Vector {
            x: velocity.x.negated(),
            y: velocity.y.sum(hit_offset(ball_y, paddle_y, field).product(field.spin)),
        },
        field.ball_speed,
    )
}

/// Where a ball is put after a point: the middle of the field.
pub open spec fn centre_of<T: Scalar>(field: Field<T>) -> Vector<T> {
    Vector {
        x: field.width.quotient(T::ratio(2, 1)).difference(
            field.ball_size.quotient(T::ratio(2, 1)),
        ),
        y: field.height.quotient(T::ratio(2, 1)).difference(
            field.ball_size.quotient(T::ratio(2, 1)),
        ),
    }
}

/// Whether each ball overlaps the paddle at each place: the overlaps of
/// `contact` are those of a ball at `ball` with the paddles.
pub open spec fn measured<T: Scalar>(
    contact: BallContact,
    ball: Vector<T>,
    paddles: Seq<Vector<T>>,
    field: Field<T>,
) -> bool {
    &&& contact.wall == (at_top(ball.y) || at_bottom(ball.y, field))
    &&& contact.exit == exit_of(ball.x, field)
    &&& contact.paddles@.len() == paddles.len()
    &&& forall|p: int|
        0 <= p < paddles.len() ==> #[trigger] contact.paddles@[p] == rects_overlap(
            ball,
            Vector { x: field.ball_size, y: field.ball_size },
            paddles[p],
            Vector { x: field.paddle_width, y: field.paddle_height },
        )
}

/// A ball after its response has been carried out: bounced off the wall,
/// returned by the paddle, and after a point put in the middle with the
/// velocity `serve`. The paddle is hit where the ball was before the wall
/// put it back.
pub open spec fn answered<T: Scalar>(
    ball: Moving<T>,
    response: BallResponse,
    paddles: Seq<Vector<T>>,
    field: Field<T>,
    serve: Vector<T>,
) -> Moving<T> {
    let off_wall = if response.bounce_off_wall {
        bounced(ball, field)
    } else {
        ball
    };
    let off_paddle = match response.paddle {
        Some(p) => Moving {
            position: off_wall.position,
            velocity: returned(ball.position.y, paddles[p as int].y, off_wall.velocity, field),
        },
        None => off_wall,
    };
    if response.scored is Some {
        Moving { position: centre_of(field), velocity: serve }
    } else {
        off_paddle
    }
}

/// Whether two rectangles overlap.
pub fn overlaps<T: Scalar>(a: &Vector<T>, a_size: &Vector<T>, b: &Vector<T>, b_size: &Vector<T>) -> (yes:
    bool)
    ensures
        yes == rects_overlap(*a, *a_size, *b, *b_size),
{
    a.x.less_than(b.x.plus(b_size.x)) && b.x.less_than(a.x.plus(a_size.x)) && a.y.less_than(
        b.y.plus(b_size.y),
    ) && b.y.less_than(a.y.plus(a_size.y))
}

/// Whether two circles overlap.
pub fn circles_overlap<T: Scalar>(a: &Vector<T>, radius_a: T, b: &Vector<T>, radius_b: T) -> (yes: bool)
    ensures
        yes == circles_meet(*a, radius_a, *b, radius_b),
{
    let dx = a.x.minus(b.x);
    let dy = a.y.minus(b.y);
    dx.times(dx).plus(dy.times(dy)).sqrt().less_than(radius_a.plus(radius_b))
}

/// Measures a ball: the wall it touches, the paddles it overlaps, the edge
/// over which it has left the field.
pub fn measure<T: Scalar>(ball: &Vector<T>, paddles: &Vec<Vector<T>>, field: &Field<T>) -> (contact:
    BallContact)
    ensures
        measured(contact, *ball, paddles@, *field),
{
    let zero = T::from_ratio(0, 1);
    let wall = ball.y.at_most(zero) || field.height.minus(field.ball_size).at_most(ball.y);
    let exit = if ball.x.less_than(field.ball_size.neg()) {
        Some(Edge::Left)
    } else if field.width.less_than(ball.x) {
        Some(Edge::Right)
    } else {
        None
    };
    let ball_size = Vector { x: field.ball_size, y: field.ball_size };
    let paddle_size = Vector { x: field.paddle_width, y: field.paddle_height };
    let found = overlaps_each(ball, &ball_size, paddles, &paddle_size);
    BallContact { wall, paddles: found, exit }
}

/// Bounces a ball off the wall it touches.
pub fn bounce_off_wall<T: Scalar>(ball: &mut Moving<T>, field: &Field<T>)
    ensures
        *final(ball) == bounced(*old(ball), *field),
{
    let zero = T::from_ratio(0, 1);
    if ball.position.y.at_most(zero) {
        ball.velocity.y = ball.velocity.y.neg();
        ball.position.y = zero;
    } else if field.height.minus(field.ball_size).at_most(ball.position.y) {
        ball.velocity.y = ball.velocity.y.neg();
        ball.position.y = field.height.minus(field.ball_size);
    }
}

/// Caps the speed of a velocity.
pub fn cap_speed<T: Scalar>(velocity: &mut Vector<T>, nominal: T)
    ensures
        *final(velocity) == capped(*old(velocity), nominal),
{
    let speed = velocity.x.times(velocity.x).plus(velocity.y.times(velocity.y)).sqrt();
    if nominal.times(T::from_ratio(3, 2)).less_than(speed) {
        velocity.x = velocity.x.over(speed).times(nominal).times(T::from_ratio(6, 5));
        velocity.y = velocity.y.over(speed).times(nominal).times(T::from_ratio(6, 5));
    }
}

/// Lets a paddle at height `paddle_y` return a ball that hit it at height
/// `ball_y`.
pub fn bounce_off_paddle<T: Scalar>(ball_y: T, paddle_y: T, velocity: &mut Vector<T>, field: &Field<T>)
    ensures
        *final(velocity) == returned(ball_y, paddle_y, *old(velocity), *field),
{
    let two = T::from_ratio(2, 1);
    velocity.x = velocity.x.neg();
    let half = field.paddle_height.over(two);
    let paddle_center = paddle_y.plus(half);
    let hit = ball_y.plus(field.ball_size.over(two));
    let offset = hit.minus(paddle_center).over(half);
    velocity.y = velocity.y.plus(offset.times(field.spin));
    cap_speed(velocity, field.ball_speed);
}

/// The middle of the field, where a ball is put after a point.
pub fn field_centre<T: Scalar>(field: &Field<T>) -> (centre: Vector<T>)
    ensures
        centre == centre_of(*field),
{
    let two = T::from_ratio(2, 1);
    Vector {
        x: field.width.over(two).minus(field.ball_size.over(two)),
        y: field.height.over(two).minus(field.ball_size.over(two)),
    }
}

/// Carries out the response to a ball.
pub fn answer<T: Scalar>(
    ball: &mut Moving<T>,
    response: &BallResponse,
    paddles: &Vec<Vector<T>>,
    field: &Field<T>,
    serve: Vector<T>,
)
    requires
        response.paddle is Some ==> response.paddle.unwrap() < paddles@.len(),
    ensures
        *final(ball) == answered(*old(ball), *response, paddles@, *field, serve),
{
    let hit_at = ball.position.y;
    if response.bounce_off_wall {
        bounce_off_wall(ball, field);
    }
    match response.paddle {
        Some(p) => {
            let mut velocity = ball.velocity;
            bounce_off_paddle(hit_at, paddles[p].y, &mut velocity, field);
            ball.velocity = velocity;
        },
        None => {},
    }
    if response.scored.is_some() {
        ball.position = field_centre(field);
        ball.velocity = serve;
    }
}

/// One collision step over the balls, in join order: each ball is measured
/// against the walls, the paddles and the scoring edges, the responses are
/// decided, and each ball that was looked at is answered. A ball that has
/// left the field scores, is put in the middle with the velocity `serve`,
/// and ends the step: the balls after it stay as they are.
pub fn collision_step<T: Scalar>(
    balls: &mut Vec<Moving<T>>,
    paddles: &Vec<Vector<T>>,
    field: &Field<T>,
    score: &mut Score,
    serve: Vector<T>,
) -> (responses: Vec<BallResponse>)
    requires
        old(score).player_score < u32::MAX,
        old(score).ai_score < u32::MAX,
    ensures
        final(balls)@.len() == old(balls)@.len(),
        responses@.len() <= old(balls)@.len(),
        exists|contacts: Seq<BallContact>|
            {
                &&& contacts.len() == old(balls)@.len()
                &&& forall|i: int|
                    0 <= i < contacts.len() ==> measured(
                        #[trigger] contacts[i],
                        old(balls)@[i].position,
                        paddles@,
                        *field,
                    )
                &&& responses@.len() == balls_processed(contacts)
                &&& forall|i: int|
                    0 <= i < responses@.len() ==> #[trigger] responses@[i] == response_to(contacts[i])
                &&& *final(score) == (if responses@.len() == 0 {
                    *old(score)
                } else {
                    score_after(*old(score), contacts[responses@.len() - 1])
                })
            },
        forall|i: int|
            0 <= i < responses@.len() ==> #[trigger] final(balls)@[i] == answered(
                old(balls)@[i],
                responses@[i],
                paddles@,
                *field,
                serve,
            ),
        forall|i: int|
            responses@.len() <= i < old(balls)@.len() ==> #[trigger] final(balls)@[i] == old(
                balls,
            )@[i],
{
    let mut contacts: Vec<BallContact> = Vec::new();
    let mut i: usize = 0;
    while i < balls.len()
        invariant
            0 <= i <= balls.len(),
            *balls == *old(balls),
            *score == *old(score),
            contacts@.len() == i,
            forall|k: int|
                0 <= k < i ==> measured(
                    #[trigger] contacts@[k],
                    balls@[k].position,
                    paddles@,
                    *field,
                ),
        decreases balls.len() - i,
    {
        let contact = measure(&balls[i].position, paddles, field);
        contacts.push(contact);
        i = i + 1;
    }
    let responses = resolve_balls(&contacts, score);
    let mut j: usize = 0;
    while j < responses.len()
        invariant
            0 <= j <= responses.len(),
            responses@.len() <= contacts@.len(),
            contacts@.len() == old(balls)@.len(),
            balls@.len() == old(balls)@.len(),
            forall|k: int|
                0 <= k < contacts@.len() ==> measured(
                    #[trigger] contacts@[k],
                    old(balls)@[k].position,
                    paddles@,
                    *field,
                ),
            forall|k: int|
                0 <= k < responses@.len() ==> #[trigger] responses@[k] == response_to(contacts@[k]),
            forall|k: int|
                0 <= k < j ==> #[trigger] balls@[k] == answered(
                    old(balls)@[k],
                    responses@[k],
                    paddles@,
                    *field,
                    serve,
                ),
            forall|k: int| j <= k < balls@.len() ==> #[trigger] balls@[k] == old(balls)@[k],
        decreases responses.len() - j,
    {
        let response = responses[j];
        proof {
            assert(measured(contacts@[j as int], old(balls)@[j as int].position, paddles@, *field));
            assert(response == response_to(contacts@[j as int]));
            if response.paddle is Some {
                let found = contacts@[j as int].paddles@;
                assert(response.paddle == first_true(found));
                assert(exists|a: int| first_at(found, a));
                let at = choose|at: int| first_at(found, at);
                assert(first_at(found, at));
                assert(0 <= at < found.len());
                assert(found.len() == paddles@.len());
            }
        }
        let mut ball = balls[j];
        answer(&mut ball, &response, paddles, field, serve);
        balls[j] = ball;
        j = j + 1;
    }
    responses
}

/// Wall reflection: a ball that touches the top wall leaves it with its
/// velocity across the wall reflected, its velocity along the wall as it
/// was, and its place at the wall.
pub proof fn lemma_wall_reflects<T: Scalar>(ball: Moving<T>, field: Field<T>)
    requires
        at_top(ball.position.y),
    ensures
        bounced(ball, field).velocity.y == ball.velocity.y.negated(),
        bounced(ball, field).velocity.x == ball.velocity.x,
        bounced(ball, field).position.y == T::ratio(0, 1),
        bounced(ball, field).position.x == ball.position.x,
{
}

/// Speed cap: a velocity above one and a half times the nominal speed is
/// scaled component by component, by the nominal speed times one and a fifth
/// over its own speed; a velocity at or below that is left as it is.
pub proof fn lemma_speed_is_capped<T: Scalar>(velocity: Vector<T>, nominal: T)
    ensures
        !nominal.product(T::ratio(3, 2)).below(speed_of(velocity)) ==> capped(velocity, nominal)
            == velocity,
        nominal.product(T::ratio(3, 2)).below(speed_of(velocity)) ==> capped(velocity, nominal).x
            == velocity.x.quotient(speed_of(velocity)).product(nominal).product(T::ratio(6, 5))
            && capped(velocity, nominal).y == velocity.y.quotient(speed_of(velocity)).product(
            nominal,
        ).product(T::ratio(6, 5)),
{
}

/// For each rectangle of `places`, all of the size `size`, whether the
/// rectangle at `ball` of the size `ball_size` overlaps it.
pub fn overlaps_each<T: Scalar>(
    ball: &Vector<T>,
    ball_size: &Vector<T>,
    places: &Vec<Vector<T>>,
    size: &Vector<T>,
) -> (found: Vec<bool>)
    ensures
        found@.len() == places@.len(),
        forall|k: int|
            0 <= k < places@.len() ==> #[trigger] found@[k] == rects_overlap(
                *ball,
                *ball_size,
                places@[k],
                *size,
            ),
{
    let mut found: Vec<bool> = Vec::new();
    let mut p: usize = 0;
    while p < places.len()
        invariant
            0 <= p <= places.len(),
            found@.len() == p,
            forall|k: int|
                0 <= k < p ==> #[trigger] found@[k] == rects_overlap(
                    *ball,
                    *ball_size,
                    places@[k],
                    *size,
                ),
        decreases places.len() - p,
    {
        found.push(overlaps(ball, ball_size, &places[p], size));
        p = p + 1;
    }
    found
}

/// A ball after it has met the bricks: where a brick took a hit, the ball's
/// vertical velocity is reflected.
pub open spec fn off_brick<T: Scalar>(ball: Moving<T>, hit: Option<(usize, BrickHit)>) -> Moving<T> {
    match hit {
        Some((_, BrickHit::Missed)) => ball,
        Some(_) => Moving {
            position: ball.position,
            velocity: Vector { x: ball.velocity.x, y: ball.velocity.y.negated() },
        },
        None => ball,
    }
}

/// A ball meets the wall of bricks. Of the bricks it overlaps, the first in
/// join order takes the hit and no other; where it took one, the ball's
/// vertical velocity is reflected. `places` holds the place of each brick of
/// `bricks`.
pub fn brick_step<T: Scalar>(
    world: &mut specs::World,
    ball: &mut Moving<T>,
    ball_size: &Vector<T>,
    bricks: &Vec<specs::Entity>,
    places: &Vec<Vector<T>>,
    brick_size: &Vector<T>,
) -> (hit: Option<(usize, BrickHit)>)
    requires
        wf(*old(world)),
        bricks@.len() == places@.len(),
    ensures
        wf(*final(world)),
        exists|found: Seq<bool>|
            {
                &&& found.len() == places@.len()
                &&& forall|k: int|
                    0 <= k < places@.len() ==> #[trigger] found[k] == rects_overlap(
                        old(ball).position,
                        *ball_size,
                        places@[k],
                        *brick_size,
                    )
                &&& match first_true(found) {
                    Some(at) => {
                        &&& hit == Some(
                            (at, hit_outcome(state_of(*old(world)), key_of(bricks@[at as int]))),
                        )
                        &&& state_of(*final(world)) == state_of(*old(world)).after_hit(
                            key_of(bricks@[at as int]),
                        )
                    },
                    None => hit is None && state_of(*final(world)) == state_of(*old(world)),
                }
            },
        *final(ball) == off_brick(*old(ball), hit),
{
    let found = overlaps_each(&ball.position, ball_size, places, brick_size);
    let hit = resolve_brick_contact(world, bricks, &found);
    match hit {
        Some((_, BrickHit::Missed)) => {},
        Some(_) => {
            ball.velocity.y = ball.velocity.y.neg();
        },
        None => {},
    }
    hit
}

/// The shape an entity collides with. A circle lies around the entity's
/// place, a rectangle has the place as its top left corner.
#[derive(Debug, Clone, Copy, PartialEq)]
pub enum Shape<T> {
    Circle { radius: T },
    Rectangle { width: T, height: T },
}

/// Makes an entity take part in collisions.
#[derive(Debug, Clone, Copy, PartialEq)]
pub struct Collider<T> {
    pub shape: Shape<T>,
    /// Whether the collider only reports and does not push back.
    pub is_trigger: bool,
}

impl<T: Scalar> Collider<T> {
    /// A circle that pushes back.
    pub fn new_circle(radius: T) -> (collider: Collider<T>)
        ensures
            collider == (Collider { shape: Shape::Circle { radius }, is_trigger: false }),
    {
        Collider { shape: Shape::Circle { radius }, is_trigger: false }
    }

    /// A rectangle that pushes back.
    pub fn new_rectangle(width: T, height: T) -> (collider: Collider<T>)
        ensures
            collider == (Collider { shape: Shape::Rectangle { width, height }, is_trigger: false }),
    {
        Collider { shape: Shape::Rectangle { width, height }, is_trigger: false }
    }
}

/// A body that takes part in the pairwise collision step.
#[derive(Debug, Clone, Copy, PartialEq)]
pub struct Dynamic<T> {
    pub position: Vector<T>,
    pub velocity: Vector<T>,
    pub collider: Collider<T>,
}

/// Whether two shapes overlap: two circles by the distance of their
/// centres, two rectangles by their intervals. A circle and a rectangle are
/// not tested against each other.
pub open spec fn shapes_collide<T: Scalar>(a: Vector<T>, shape_a: Shape<T>, b: Vector<T>, shape_b: Shape<
    T,
>) -> bool {
    match (shape_a, shape_b) {
        (Shape::Circle { radius: r1 }, Shape::Circle { radius: r2 }) => circles_meet(a, r1, b, r2),
        (Shape::Rectangle { width: w1, height: h1 }, Shape::Rectangle { width: w2, height: h2 }) => rects_overlap(
            a,
            Vector { x: w1, y: h1 },
            b,
            Vector { x: w2, y: h2 },
        ),
        _ => false,
    }
}

/// Whether two colliders at two places overlap.
pub fn check_collision<T: Scalar>(a: &Vector<T>, collider_a: &Collider<T>, b: &Vector<T>, collider_b: &Collider<
    T,
>) -> (yes: bool)
    ensures
        yes == shapes_collide(*a, collider_a.shape, *b, collider_b.shape),
{
    match (collider_a.shape, collider_b.shape) {
        (Shape::Circle { radius: r1 }, Shape::Circle { radius: r2 }) => circles_overlap(a, r1, b, r2),
        (Shape::Rectangle { width: w1, height: h1 }, Shape::Rectangle { width: w2, height: h2 }) => {
            overlaps(a, &Vector { x: w1, y: h1 }, b, &Vector { x: w2, y: h2 })
        },
        _ => false,
    }
}

/// Whether the bodies at `first` and `second`, the first before the second
/// in join order, collide.
pub open spec fn pair_collides<T: Scalar>(bodies: Seq<Dynamic<T>>, first: int, second: int) -> bool {
    shapes_collide(
        bodies[first].position,
        bodies[first].collider.shape,
        bodies[second].position,
        bodies[second].collider.shape,
    )
}

/// Whether the pair of `first` and `second` has been tested once the step
/// stands at the pair of `i` and `j`: pairs are tested in join order, each
/// body against all bodies after it.
pub open spec fn tested(i: int, j: int, first: int, second: int) -> bool {
    first < i || (first == i && second < j)
}

/// Whether the body at `k` has collided with the body at `m` in a pair that
/// has been tested once the step stands at the pair of `i` and `j`.
pub open spec fn has_met<T: Scalar>(bodies: Seq<Dynamic<T>>, k: int, m: int, i: int, j: int) -> bool {
    if m < k {
        tested(i, j, m, k) && pair_collides(bodies, m, k)
    } else if m > k {
        tested(i, j, k, m) && pair_collides(bodies, k, m)
    } else {
        false
    }
}

/// With how many of the first `upto` bodies the body at `k` has collided in
/// pairs that have been tested once the step stands at the pair of `i` and
/// `j`.
pub open spec fn meetings<T: Scalar>(bodies: Seq<Dynamic<T>>, k: int, i: int, j: int, upto: int) -> nat
    decreases upto,
{
    if upto <= 0 {
        0
    } else {
        meetings(bodies, k, i, j, upto - 1) + if has_met(bodies, k, upto - 1, i, j) {
            1nat
        } else {
            0nat
        }
    }
}

/// A velocity after `times` collisions: each reverses it and leaves it
/// `restitution` of its speed.
pub open spec fn rebounded<T: Scalar>(velocity: Vector<T>, restitution: T, times: nat) -> Vector<T>
    decreases times,
{
    if times == 0 {
        velocity
    } else {
        let before = rebounded(velocity, restitution, (times - 1) as nat);
        Vector {
            x: before.x.negated().product(restitution),
            y: before.y.negated().product(restitution),
        }
    }
}

/// Reverses a velocity and leaves it `restitution` of its speed.
pub fn rebound<T: Scalar>(velocity: &mut Vector<T>, restitution: T)
    ensures
        *final(velocity) == (Vector {
            x: old(velocity).x.negated().product(restitution),
            y: old(velocity).y.negated().product(restitution),
        }),
{
    velocity.x = velocity.x.neg().times(restitution);
    velocity.y = velocity.y.neg().times(restitution);
}

/// Testing one more pair changes the count of exactly its two bodies, and
/// only where the pair collides.
proof fn lemma_next_pair<T: Scalar>(bodies: Seq<Dynamic<T>>, k: int, i: int, j: int, upto: int)
    requires
        0 <= i < j < bodies.len(),
        0 <= k < bodies.len(),
        0 <= upto <= bodies.len(),
    ensures
        meetings(bodies, k, i, j + 1, upto) == meetings(bodies, k, i, j, upto) + if pair_collides(
            bodies,
            i,
            j,
        ) && ((k == i && j < upto) || (k == j && i < upto)) {
            1nat
        } else {
            0nat
        },
    decreases upto,
{
    if upto > 0 {
        lemma_next_pair(bodies, k, i, j, upto - 1);
    }
}

/// Once a body has been tested against all bodies after it, the step stands
/// where the next body starts.
proof fn lemma_next_body<T: Scalar>(bodies: Seq<Dynamic<T>>, k: int, i: int, upto: int)
    requires
        0 <= i < bodies.len(),
        0 <= k < bodies.len(),
        0 <= upto <= bodies.len(),
    ensures
        meetings(bodies, k, i, bodies.len() as int, upto) == meetings(bodies, k, i + 1, i + 2, upto),
    decreases upto,
{
    if upto > 0 {
        lemma_next_body(bodies, k, i, upto - 1);
    }
}

/// Before the first pair is tested no body has met another.
proof fn lemma_no_pair_yet<T: Scalar>(bodies: Seq<Dynamic<T>>, k: int, upto: int)
    requires
        0 <= k,
        0 <= upto,
    ensures
        meetings(bodies, k, 0, 1, upto) == 0,
    decreases upto,
{
    if upto > 0 {
        lemma_no_pair_yet(bodies, k, upto - 1);
    }
}

/// With how many other bodies the body at `k` collides.
pub open spec fn collisions_of<T: Scalar>(bodies: Seq<Dynamic<T>>, k: int) -> nat {
    meetings(bodies, k, bodies.len() as int, bodies.len() as int + 1, bodies.len() as int)
}

/// The pairwise collision step: every body is tested against every body
/// after it, in join order, at the places the bodies have when the step
/// begins. Each collision of a pair reverses the velocities of both and
/// leaves them `restitution` of their speed; places and colliders stay.
pub fn pairwise_step<T: Scalar>(bodies: &mut Vec<Dynamic<T>>, restitution: T)
    ensures
        final(bodies)@.len() == old(bodies)@.len(),
        forall|k: int|
            0 <= k < old(bodies)@.len() ==> {
                &&& (#[trigger] final(bodies)@[k]).position == old(bodies)@[k].position
                &&& final(bodies)@[k].collider == old(bodies)@[k].collider
                &&& final(bodies)@[k].velocity == rebounded(
                    old(bodies)@[k].velocity,
                    restitution,
                    collisions_of(old(bodies)@, k),
                )
            },
{
    let count = bodies.len();
    let ghost before = bodies@;
    if count == 0 {
        return ;
    }
    proof {
        assert forall|k: int| 0 <= k < count implies meetings(before, k, 0, 1, count as int) == 0 by {
            lemma_no_pair_yet(before, k, count as int);
        }
    }
    let mut i: usize = 0;
    while i < count
        invariant
            0 <= i <= count,
            count == bodies@.len(),
            count == before.len(),
            before == old(bodies)@,
            forall|k: int|
                0 <= k < count ==> (#[trigger] bodies@[k]).position == before[k].position
                    && bodies@[k].collider == before[k].collider && bodies@[k].velocity == rebounded(
                    before[k].velocity,
                    restitution,
                    meetings(before, k, i as int, i + 1, count as int),
                ),
        decreases count - i,
    {
        let mut j: usize = i + 1;
        while j < count
            invariant
                0 <= i < j <= count,
                count == bodies@.len(),
                count == before.len(),
                before == old(bodies)@,
                forall|k: int|
                    0 <= k < count ==> (#[trigger] bodies@[k]).position == before[k].position
                        && bodies@[k].collider == before[k].collider && bodies@[k].velocity
                        == rebounded(
                        before[k].velocity,
                        restitution,
                        meetings(before, k, i as int, j as int, count as int),
                    ),
            decreases count - j,
        {
            let a = bodies[i];
            let b = bodies[j];
            let hit = check_collision(&a.position, &a.collider, &b.position, &b.collider);
            proof {
                assert(hit == pair_collides(before, i as int, j as int));
                assert forall|k: int| 0 <= k < count implies meetings(
                    before,
                    k,
                    i as int,
                    j + 1,
                    count as int,
                ) == meetings(before, k, i as int, j as int, count as int) + if hit && (k == i || k
                    == j) {
                    1nat
                } else {
                    0nat
                } by {
                    lemma_next_pair(before, k, i as int, j as int, count as int);
                }
            }
            if hit {
                let mut first = a;
                rebound(&mut first.velocity, restitution);
                bodies[i] = first;
                let mut second = b;
                rebound(&mut second.velocity, restitution);
                bodies[j] = second;
            }
            j = j + 1;
        }
        proof {
            assert forall|k: int| 0 <= k < count implies meetings(
                before,
                k,
                i as int,
                count as int,
                count as int,
            ) == meetings(before, k, i + 1, i + 2, count as int) by {
                lemma_next_body(before, k, i as int, count as int);
            }
        }
        i = i + 1;
    }
}

/// Whether a ball at `x` touches the left or the right wall of the field.
pub open spec fn at_side<T: Scalar>(x: T, field: Field<T>) -> bool {
    x.within(T::ratio(0, 1)) || field.width.difference(field.ball_size).within(x)
}

/// `x` kept between `least` and `most`: `least` for a number below it,
/// `most` for one above it.
pub open spec fn kept_within<T: Scalar>(x: T, least: T, most: T) -> T {
    if x.below(least) {
        least
    } else if most.below(x) {
        most
    } else {
        x
    }
}

/// A ball after the side walls: where it touches one, its velocity across
/// the wall is reflected and it is put back between the walls.
pub open spec fn sided<T: Scalar>(ball: Moving<T>, field: Field<T>) -> Moving<T> {
    if at_side(ball.position.x, field) {
        Moving {
            position: Vector {
                x: kept_within(
                    ball.position.x,
                    T::ratio(0, 1),
                    field.width.difference(field.ball_size),
                ),
                y: ball.position.y,
            },
            velocity: Vector { x: ball.velocity.x.negated(), y: ball.velocity.y },
        }
    } else {
        ball
    }
}

/// A ball after the top wall: where it touches the wall, its velocity
/// across the wall is reflected and it is put at the wall.
pub open spec fn topped<T: Scalar>(ball: Moving<T>) -> Moving<T> {
    if at_top(ball.position.y) {
        Moving {
            position: Vector { x: ball.position.x, y: T::ratio(0, 1) },
            velocity: Vector { x: ball.velocity.x, y: ball.velocity.y.negated() },
        }
    } else {
        ball
    }
}

/// Whether a ball has fallen out of the field: it has reached the bottom
/// edge.
pub open spec fn fallen<T: Scalar>(ball: Moving<T>, field: Field<T>) -> bool {
    field.height.within(ball.position.y)
}

/// Where along a paddle a ball has hit it: nought at the left end, one at
/// the right end, measured at the middle of the ball.
pub open spec fn hit_place<T: Scalar>(ball_x: T, paddle_x: T, field: Field<T>) -> T {
    ball_x.sum(field.ball_size.quotient(T::ratio(2, 1))).difference(paddle_x).quotient(
        field.paddle_width,
    )
}

/// The angle at which a paddle sends a ball up: nought from its middle, a
/// sixth of a half turn to either side from its ends.
pub open spec fn launch_angle<T: Scalar>(ball_x: T, paddle_x: T, field: Field<T>) -> T {
    hit_place(ball_x, paddle_x, field).difference(T::ratio(1, 2)).product(half_turn::<T>()).quotient(
        T::ratio(3, 1),
    )
}

/// The size of a number without its sign.
pub open spec fn size_of<T: Scalar>(x: T) -> T {
    x.larger(x.negated())
}

/// Whether a paddle at `paddle` sends a ball up: the ball overlaps it and
/// moves downwards.
pub open spec fn struck<T: Scalar>(ball: Moving<T>, paddle: Vector<T>, field: Field<T>) -> bool {
    rects_overlap(
        ball.position,
        Vector { x: field.ball_size, y: field.ball_size },
        paddle,
        Vector { x: field.paddle_width, y: field.paddle_height },
    ) && T::ratio(0, 1).below(ball.velocity.y)
}

/// A ball after a paddle that lies below it: where the paddle sends it up,
/// it keeps its speed and leaves upwards, at the angle that the place of
/// the hit gives.
pub open spec fn launched<T: Scalar>(ball: Moving<T>, paddle: Vector<T>, field: Field<T>) -> Moving<T> {
    if struck(ball, paddle, field) {
        let angle = launch_angle(ball.position.x, paddle.x, field);
        let speed = speed_of(Vector { x: ball.velocity.x, y: ball.velocity.y.negated() });
        Moving {
            position: ball.position,
            velocity: Vector {
                x: angle.sine().product(speed),
                y: size_of(angle.cosine()).negated().product(speed),
            },
        }
    } else {
        ball
    }
}

/// A ball after the paddles, one after the other in their order.
pub open spec fn launched_by<T: Scalar>(ball: Moving<T>, paddles: Seq<Vector<T>>, field: Field<T>) -> Moving<
    T,
>
    decreases paddles.len(),
{
    if paddles.len() == 0 {
        ball
    } else {
        launched(launched_by(ball, paddles.drop_last(), field), paddles.last(), field)
    }
}

/// Bounces a ball off the side wall it touches.
pub fn bounce_off_sides<T: Scalar>(ball: &mut Moving<T>, field: &Field<T>)
    ensures
        *final(ball) == sided(*old(ball), *field),
{
    let zero = T::from_ratio(0, 1);
    let most = field.width.minus(field.ball_size);
    if ball.position.x.at_most(zero) || most.at_most(ball.position.x) {
        ball.velocity.x = ball.velocity.x.neg();
        if ball.position.x.less_than(zero) {
            ball.position.x = zero;
        } else if most.less_than(ball.position.x) {
            ball.position.x = most;
        }
    }
}

/// Bounces a ball off the top wall where it touches it.
pub fn bounce_off_top<T: Scalar>(ball: &mut Moving<T>)
    ensures
        *final(ball) == topped(*old(ball)),
{
    let zero = T::from_ratio(0, 1);
    if ball.position.y.at_most(zero) {
        ball.velocity.y = ball.velocity.y.neg();
        ball.position.y = zero;
    }
}

/// Whether a ball has fallen out of the field at the bottom.
pub fn ball_lost<T: Scalar>(ball: &Moving<T>, field: &Field<T>) -> (lost: bool)
    ensures
        lost == field.height.within(ball.position.y),
{
    field.height.at_most(ball.position.y)
}

/// The walls of a field that is open at the bottom: a ball bounces off the
/// sides, then off the top, and is lost where it has then reached the
/// bottom edge.
pub fn open_field_walls<T: Scalar>(ball: &mut Moving<T>, field: &Field<T>) -> (lost: bool)
    ensures
        *final(ball) == topped(sided(*old(ball), *field)),
        lost == fallen(topped(sided(*old(ball), *field)), *field),
{
    bounce_off_sides(ball, field);
    bounce_off_top(ball);
    ball_lost(ball, field)
}

/// Lets a paddle that lies below a ball send it up.
pub fn launch_off_paddle<T: Scalar>(ball: &mut Moving<T>, paddle: &Vector<T>, field: &Field<T>)
    ensures
        *final(ball) == launched(*old(ball), *paddle, *field),
{
    let ball_size = Vector { x: field.ball_size, y: field.ball_size };
    let paddle_size = Vector { x: field.paddle_width, y: field.paddle_height };
    if overlaps(&ball.position, &ball_size, paddle, &paddle_size) && T::from_ratio(0, 1).less_than(
        ball.velocity.y,
    ) {
        let up = ball.velocity.y.neg();
        let place = ball.position.x.plus(field.ball_size.over(T::from_ratio(2, 1))).minus(paddle.x).over(
            field.paddle_width,
        );
        let angle = place.minus(T::from_ratio(1, 2)).times(pi::<T>()).over(T::from_ratio(3, 1));
        let speed = ball.velocity.x.times(ball.velocity.x).plus(up.times(up)).sqrt();
        let rise = angle.cos();
        ball.velocity.x = angle.sin().times(speed);
        ball.velocity.y = rise.max_of(rise.neg()).neg().times(speed);
    }
}

/// Lets each of the paddles in its turn send a ball up.
pub fn launch_off_paddles<T: Scalar>(ball: &mut Moving<T>, paddles: &Vec<Vector<T>>, field: &Field<T>)
    ensures
        *final(ball) == launched_by(*old(ball), paddles@, *field),
{
    let mut i: usize = 0;
    proof {
        assert(paddles@.take(0) =~= Seq::<Vector<T>>::empty());
    }
    while i < paddles.len()
        invariant
            i <= paddles@.len(),
            *ball == launched_by(*old(ball), paddles@.take(i as int), *field),
        decreases paddles@.len() - i,
    {
        proof {
            assert(paddles@.take(i + 1).drop_last() =~= paddles@.take(i as int));
        }
        launch_off_paddle(ball, &paddles[i], field);
        i = i + 1;
    }
    proof {
        assert(paddles@.take(paddles@.len() as int) =~= paddles@);
    }
}

/// Side walls reflect: a ball that touches a side wall leaves with its
/// horizontal velocity reversed and its vertical velocity as it was, at its
/// height, and put back between the walls; a ball that touches none is left
/// as it is.
pub proof fn lemma_side_walls_reflect<T: Scalar>(ball: Moving<T>, field: Field<T>)
    ensures
        at_side(ball.position.x, field) ==> sided(ball, field).velocity.x
            == ball.velocity.x.negated() && sided(ball, field).velocity.y == ball.velocity.y
            && sided(ball, field).position.y == ball.position.y && sided(ball, field).position.x
            == kept_within(ball.position.x, T::ratio(0, 1), field.width.difference(field.ball_size)),
        !at_side(ball.position.x, field) ==> sided(ball, field) == ball,
{
}

/// The speed cap in numbers that do not round. Let a velocity `(vx, vy)`
/// have the speed `s`, and let `(cx, cy)` be that velocity over its speed,
/// times the nominal speed `n`, times six fifths, with nothing lost in
/// dividing. Then `(cx, cy)` has exactly six fifths of the nominal speed,
/// and the direction of the velocity. Numbers that round keep this only as
/// far as their rounding goes.
pub proof fn lemma_cap_is_exact_without_rounding(vx: int, vy: int, s: int, n: int, cx: int, cy: int)
    requires
        s > 0,
        n >= 0,
        s * s == vx * vx + vy * vy,
        5 * s * cx == 6 * n * vx,
        5 * s * cy == 6 * n * vy,
    ensures
        25 * (cx * cx + cy * cy) == 36 * (n * n),
        cx * vy == cy * vx,
        vx > 0 ==> cx >= 0,
        vx < 0 ==> cx <= 0,
        vy > 0 ==> cy >= 0,
        vy < 0 ==> cy <= 0,
{
    let a = 5 * s * cx;
    let b = 5 * s * cy;
    let q = cx * cx + cy * cy;
    assert(a * a + b * b == 25 * (s * s) * q) by (nonlinear_arith)
        requires
            a == 5 * s * cx,
            b == 5 * s * cy,
            q == cx * cx + cy * cy,
    ;
    assert(a * a + b * b == 36 * (n * n) * (s * s)) by (nonlinear_arith)
        requires
            a == 6 * n * vx,
            b == 6 * n * vy,
            s * s == vx * vx + vy * vy,
    ;
    let ss = s * s;
    assert(ss > 0) by (nonlinear_arith)
        requires
            ss == s * s,
            s > 0,
    ;
    assert(25 * q == 36 * (n * n)) by (nonlinear_arith)
        requires
            25 * ss * q == 36 * (n * n) * ss,
            ss > 0,
    ;
    assert(5 * s * (cx * vy) == 5 * s * (cy * vx)) by (nonlinear_arith)
        requires
            5 * s * cx == 6 * n * vx,
            5 * s * cy == 6 * n * vy,
    ;
    assert(cx * vy == cy * vx) by (nonlinear_arith)
        requires
            5 * s * (cx * vy) == 5 * s * (cy * vx),
            s > 0,
    ;
    assert(vx > 0 ==> cx >= 0) by (nonlinear_arith)
        requires
            5 * s * cx == 6 * n * vx,
            s > 0,
            n >= 0,
    ;
    assert(vx < 0 ==> cx <= 0) by (nonlinear_arith)
        requires
            5 * s * cx == 6 * n * vx,
            s > 0,
            n >= 0,
    ;
    assert(vy > 0 ==> cy >= 0) by (nonlinear_arith)
        requires
            5 * s * cy == 6 * n * vy,
            s > 0,
            n >= 0,
    ;
    assert(vy < 0 ==> cy <= 0) by (nonlinear_arith)
        requires
            5 * s * cy == 6 * n * vy,
            s > 0,
            n >= 0,
    ;
}

/// Whether a number lies within the range of an `i64`.
pub open spec fn fits(v: int) -> bool {
    i64::MIN <= v <= i64::MAX
}

/// What it is for the speed cap to lose nothing in fixed-point numbers, on
/// a velocity of `x` and `y` millionths and a nominal speed of `n`
/// millionths: the squares, the speed `s`, the velocity over the speed
/// (`qx`, `qy`), that times the nominal speed (`px`, `py`) and that times
/// six fifths (`cx`, `cy`) all come out whole and within range.
pub open spec fn cap_loses_nothing(
    x: int,
    y: int,
    n: int,
    s: int,
    qx: int,
    qy: int,
    px: int,
    py: int,
    cx: int,
    cy: int,
) -> bool {
    &&& n >= 0
    &&& s > 0
    &&& (x * x) % (SCALE as int) == 0
    &&& (y * y) % (SCALE as int) == 0
    &&& s * s == x * x + y * y
    &&& qx * s == x * SCALE
    &&& qy * s == y * SCALE
    &&& px * SCALE == qx * n
    &&& py * SCALE == qy * n
    &&& cx * 5 == px * 6
    &&& cy * 5 == py * 6
    &&& fits(x * x + y * y)
    &&& fits(qx) && fits(qy) && fits(px) && fits(py) && fits(cx) && fits(cy)
}

/// The speed cap on fixed-point numbers where nothing is lost to rounding:
/// a velocity that is capped comes out with exactly six fifths of the
/// nominal speed (its square is thirty-six twenty-fifths of the square of
/// the nominal speed) and with the direction it had. Where a division
/// leaves something over the cap is right only as far as a millionth goes.
pub proof fn lemma_fixed_cap_is_exact(
    velocity: Vector<Fixed>,
    nominal: Fixed,
    s: int,
    qx: int,
    qy: int,
    px: int,
    py: int,
    cx: int,
    cy: int,
)
    requires
        cap_loses_nothing(
            velocity.x.raw as int,
            velocity.y.raw as int,
            nominal.raw as int,
            s,
            qx,
            qy,
            px,
            py,
            cx,
            cy,
        ),
        nominal.product(Fixed::ratio(3, 2)).below(speed_of(velocity)),
    ensures
        speed_of(velocity).raw == s,
        capped(velocity, nominal) == (Vector { x: Fixed { raw: cx as i64 }, y: Fixed { raw: cy as i64 } }),
        25 * (cx * cx + cy * cy) == 36 * (nominal.raw * nominal.raw),
        cx * velocity.y.raw == cy * velocity.x.raw,
{
    let x = velocity.x.raw as int;
    let y = velocity.y.raw as int;
    let n = nominal.raw as int;
    let scale = SCALE as int;
    // The squares and their sum.
    let sx = (x * x) / scale;
    let sy = (y * y) / scale;
    vstd::arithmetic::div_mod::lemma_fundamental_div_mod(x * x, scale);
    vstd::arithmetic::div_mod::lemma_fundamental_div_mod(y * y, scale);
    assert(scale * sx == x * x);
    assert(scale * sy == y * y);
    lemma_exact_quotient(x * x, scale, sx);
    lemma_exact_quotient(y * y, scale, sy);
    assert(0 <= x * x) by (nonlinear_arith);
    assert(0 <= y * y) by (nonlinear_arith);
    assert(0 <= sx <= x * x && 0 <= sy <= y * y) by (nonlinear_arith)
        requires
            scale * sx == x * x,
            scale * sy == y * y,
            scale == 1_000_000,
            0 <= x * x,
            0 <= y * y,
    ;
    assert(velocity.x.product(velocity.x).raw == sx);
    assert(velocity.y.product(velocity.y).raw == sy);
    let total = sx + sy;
    assert(total * scale == s * s) by (nonlinear_arith)
        requires
            total == sx + sy,
            scale * sx == x * x,
            scale * sy == y * y,
            s * s == x * x + y * y,
    ;
    assert(total > 0) by (nonlinear_arith)
        requires
            total * scale == s * s,
            s > 0,
            scale == 1_000_000,
            total == sx + sy,
            0 <= sx,
            0 <= sy,
    ;
    assert(s * s < (s + 1) * (s + 1)) by (nonlinear_arith)
        requires
            s > 0,
    ;
    lemma_root_is_unique(total * scale, s);
    assert(s <= s * s) by (nonlinear_arith)
        requires
            s > 0,
    ;
    assert(speed_of(velocity).raw == s);
    // The velocity over its speed, times the nominal speed, times six
    // fifths.
    assert(s * qx == x * scale) by (nonlinear_arith)
        requires
            qx * s == x * scale,
    ;
    assert(s * qy == y * scale) by (nonlinear_arith)
        requires
            qy * s == y * scale,
    ;
    lemma_exact_quotient(x * scale, s, qx);
    lemma_exact_quotient(y * scale, s, qy);
    assert(scale * px == qx * n) by (nonlinear_arith)
        requires
            px * scale == qx * n,
    ;
    assert(scale * py == qy * n) by (nonlinear_arith)
        requires
            py * scale == qy * n,
    ;
    lemma_exact_quotient(qx * n, scale, px);
    lemma_exact_quotient(qy * n, scale, py);
    let k = Fixed::ratio(6, 5).raw as int;
    lemma_exact_quotient(6 * scale, 5, 1_200_000);
    assert(k == 1_200_000);
    assert(scale * cx == px * k) by (nonlinear_arith)
        requires
            cx * 5 == px * 6,
            k == 1_200_000,
            scale == 1_000_000,
    ;
    assert(scale * cy == py * k) by (nonlinear_arith)
        requires
            cy * 5 == py * 6,
            k == 1_200_000,
            scale == 1_000_000,
    ;
    lemma_exact_quotient(px * k, scale, cx);
    lemma_exact_quotient(py * k, scale, cy);
    let speed = speed_of(velocity);
    assert(velocity.x.quotient(speed).raw == qx);
    assert(velocity.y.quotient(speed).raw == qy);
    assert(velocity.x.quotient(speed).product(nominal).raw == px);
    assert(velocity.y.quotient(speed).product(nominal).raw == py);
    assert(velocity.x.quotient(speed).product(nominal).product(Fixed::ratio(6, 5)).raw == cx);
    assert(velocity.y.quotient(speed).product(nominal).product(Fixed::ratio(6, 5)).raw == cy);
    // Six fifths of the nominal speed, in the direction of the velocity.
    assert(5 * s * cx == 6 * n * x) by (nonlinear_arith)
        requires
            qx * s == x * scale,
            px * scale == qx * n,
            cx * 5 == px * 6,
            scale == 1_000_000,
    ;
    assert(5 * s * cy == 6 * n * y) by (nonlinear_arith)
        requires
            qy * s == y * scale,
            py * scale == qy * n,
            cy * 5 == py * 6,
            scale == 1_000_000,
    ;
    lemma_cap_is_exact_without_rounding(x, y, s, n, cx, cy);
}

} // verus!
