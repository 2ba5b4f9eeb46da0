use modular_game_engine::collision::{
    answer, ball_lost, bounce_off_paddle, bounce_off_sides, bounce_off_top, bounce_off_wall,
    brick_step, cap_speed, check_collision, circles_overlap, collision_step, field_centre,
    launch_off_paddle, launch_off_paddles, measure, open_field_walls, overlaps, overlaps_each,
    pairwise_step, rebound, BallResponse, Collider, Dynamic, Edge, Field, Moving, Shape,
};
use modular_game_engine::components::{Brick, Score, Side};
use modular_game_engine::ecs::{
    brick_entities, create_entity, init, insert_brick, is_marked, BrickHit,
};
use modular_game_engine::num::{isqrt, Fixed, Scalar, SCALE};
use modular_game_engine::physics::{advance, physics_step, Body, Vector};

fn n(units: i32) -> Fixed {
    Fixed::from_units(units)
}

fn v(x: i32, y: i32) -> Vector<Fixed> {
    Vector { x: n(x), y: n(y) }
}

fn field() -> Field<Fixed> {
    Field {
        width: n(800),
        height: n(600),
        ball_size: n(15),
        paddle_width: n(20),
        paddle_height: n(100),
        ball_speed: n(400),
        spin: n(100),
    }
}

#[test]
fn fixed_numbers_are_whole_millionths() {
    assert_eq!(SCALE, 1_000_000);
    assert_eq!(n(3).raw, 3_000_000);
    assert_eq!(Fixed::from_ratio(3, 2).raw, 1_500_000);
    assert_eq!(Fixed::from_ratio(1, 60).raw, 16_666);
    assert_eq!(Fixed::from_ratio(-1, 3).raw, -333_333);
    assert_eq!(Fixed::from_ratio(1, -3).raw, -333_333);
    assert_eq!(Fixed::from_ratio(-7, -2).raw, 3_500_000);
    assert_eq!(Fixed::from_ratio(0, 0).raw, 0);
    assert_eq!(Fixed::from_ratio(5, 0).raw, i64::MAX);
    assert_eq!(Fixed::from_ratio(-5, 0).raw, i64::MIN);
    assert!(n(1).is_finite());
}

#[test]
fn fixed_arithmetic_rounds_towards_nil_and_stays_in_range() {
    let a = Fixed { raw: 2_500_000 };
    let b = Fixed { raw: -1_500_000 };
    assert_eq!(a.plus(b).raw, 1_000_000);
    assert_eq!(a.minus(b).raw, 4_000_000);
    assert_eq!(a.times(b).raw, -3_750_000);
    assert_eq!(b.times(b).raw, 2_250_000);
    assert_eq!(a.over(b).raw, -1_666_666);
    assert_eq!(b.over(a).raw, -600_000);
    assert_eq!(a.neg().raw, -2_500_000);
    assert_eq!(Fixed { raw: 1 }.times(Fixed { raw: 999_999 }).raw, 0);
    assert_eq!(Fixed { raw: -1 }.times(Fixed { raw: 999_999 }).raw, 0);
    let top = Fixed { raw: i64::MAX };
    let bottom = Fixed { raw: i64::MIN };
    assert_eq!(top.plus(n(1)), top);
    assert_eq!(bottom.minus(n(1)), bottom);
    assert_eq!(bottom.neg(), top);
    assert_eq!(top.times(n(2)), top);
    assert_eq!(top.times(n(-2)), bottom);
    assert_eq!(bottom.times(bottom), top);
    assert_eq!(top.over(Fixed { raw: 1 }), top);
    assert_eq!(n(1).over(n(0)), top);
    assert_eq!(n(-1).over(n(0)), bottom);
    assert_eq!(n(0).over(n(0)), n(0));
    assert!(b.less_than(a) && !a.less_than(a) && a.at_most(a) && !a.at_most(b));
}

#[test]
fn the_whole_root_is_the_largest_whose_square_fits() {
    for (value, root) in [(0u128, 0u128), (1, 1), (3, 1), (4, 2), (24, 4), (25, 5), (26, 5)] {
        assert_eq!(isqrt(value), root);
    }
    let big = (1u128 << 96) - 1;
    let root = isqrt(big);
    assert!(root * root <= big && (root + 1) * (root + 1) > big);
    assert_eq!(n(25).sqrt(), n(5));
    assert_eq!(n(2).sqrt().raw, 1_414_213);
    assert_eq!(n(0).sqrt(), n(0));
    assert_eq!(n(-4).sqrt(), n(0));
    assert_eq!(Fixed { raw: i64::MAX }.sqrt().raw, 3_037_000_499_976);
}

#[test]
fn integration_order() {
    let dt = Fixed::from_ratio(1, 60);
    let mut bodies = vec![Body {
        position: Some(v(0, 0)),
        velocity: Some(v(0, 0)),
        acceleration: Some(v(0, 98)),
    }];
    assert!(physics_step(&mut bodies, dt));
    let velocity = bodies[0].velocity.unwrap();
    let position = bodies[0].position.unwrap();
    assert_eq!(velocity.y, n(98).times(dt));
    assert_eq!(velocity.y.raw, 1_633_268);
    assert_eq!(position.y, n(98).times(dt).times(dt));
    assert_eq!(position.y.raw, 27_220);
    assert_ne!(position.y, n(0));
    assert_eq!((velocity.x, position.x), (n(0), n(0)));
    assert_eq!(bodies[0].acceleration, Some(v(0, 98)));
}

#[test]
fn a_body_has_the_components_it_has() {
    let dt = n(2);
    let mut bodies = vec![
        Body { position: Some(v(1, 1)), velocity: Some(v(3, -4)), acceleration: None },
        Body { position: None, velocity: Some(v(1, 1)), acceleration: Some(v(10, 0)) },
        Body { position: Some(v(5, 5)), velocity: None, acceleration: Some(v(10, 0)) },
        Body { position: None, velocity: None, acceleration: None },
    ];
    assert!(physics_step(&mut bodies, dt));
    assert_eq!(bodies[0].position, Some(v(7, -7)));
    assert_eq!(bodies[0].velocity, Some(v(3, -4)));
    assert_eq!(bodies[1].velocity, Some(v(21, 1)));
    assert_eq!(bodies[1].position, None);
    assert_eq!(bodies[2].position, Some(v(5, 5)));
    assert_eq!(bodies[2].velocity, None);
    assert_eq!(bodies[3], Body { position: None, velocity: None, acceleration: None });
    let mut value = v(1, 2);
    advance(&mut value, &v(10, -10), Fixed::from_ratio(1, 2));
    assert_eq!(value, v(6, -3));
}

#[test]
fn wall_reflection() {
    let mut ball = Moving { position: v(100, -1), velocity: v(30, -50) };
    bounce_off_wall(&mut ball, &field());
    assert_eq!(ball.velocity, v(30, 50));
    assert_eq!(ball.position, v(100, 0));
    let mut ball = Moving { position: v(100, 590), velocity: v(30, 50) };
    bounce_off_wall(&mut ball, &field());
    assert_eq!(ball.velocity, v(30, -50));
    assert_eq!(ball.position, v(100, 585));
    let mut ball = Moving { position: v(100, 300), velocity: v(30, 50) };
    bounce_off_wall(&mut ball, &field());
    assert_eq!(ball, Moving { position: v(100, 300), velocity: v(30, 50) });
    let mut ball = Moving { position: v(100, 0), velocity: v(0, 7) };
    bounce_off_wall(&mut ball, &field());
    assert_eq!(ball.velocity, v(0, -7));
}

#[test]
fn speed_cap() {
    let mut fast = v(300, 400);
    cap_speed(&mut fast, n(100));
    assert_eq!(fast, v(72, 96));
    let speed = fast.x.times(fast.x).plus(fast.y.times(fast.y)).sqrt();
    assert_eq!(speed, n(100).times(Fixed::from_ratio(6, 5)));
    let mut at_limit = v(90, 120);
    cap_speed(&mut at_limit, n(100));
    assert_eq!(at_limit, v(90, 120));
    let mut backwards = v(-300, -400);
    cap_speed(&mut backwards, n(100));
    assert_eq!(backwards, v(-72, -96));
    let mut slow = v(3, 4);
    cap_speed(&mut slow, n(100));
    assert_eq!(slow, v(3, 4));
}

#[test]
fn a_paddle_reflects_and_spins() {
    let f = field();
    let mut middle = v(-400, 0);
    bounce_off_paddle(Fixed { raw: 342_500_000 }, n(300), &mut middle, &f);
    assert_eq!(middle, v(400, 0));
    let mut low = v(-400, 0);
    bounce_off_paddle(Fixed { raw: 392_500_000 }, n(300), &mut low, &f);
    assert_eq!(low, v(400, 100));
    let mut high = v(-400, 10);
    bounce_off_paddle(Fixed { raw: 317_500_000 }, n(300), &mut high, &f);
    assert_eq!(high, v(400, -40));
    let mut fast = v(-600, 0);
    bounce_off_paddle(Fixed { raw: 392_500_000 }, n(300), &mut fast, &f);
    let speed = fast.x.times(fast.x).plus(fast.y.times(fast.y)).sqrt();
    assert!(speed.at_most(n(480)));
    assert!(n(479).less_than(speed));
    assert!(n(0).less_than(fast.x) && n(0).less_than(fast.y));
}

#[test]
fn rectangles_overlap_where_their_intervals_meet() {
    let size = v(10, 10);
    assert!(overlaps(&v(0, 0), &size, &v(5, 5), &size));
    assert!(overlaps(&v(5, 5), &size, &v(0, 0), &size));
    assert!(!overlaps(&v(0, 0), &size, &v(10, 0), &size));
    assert!(!overlaps(&v(0, 0), &size, &v(0, 10), &size));
    assert!(overlaps(&v(0, 0), &size, &v(9, 9), &size));
    assert!(!overlaps(&v(0, 0), &size, &v(5, 11), &size));
    assert_eq!(
        overlaps_each(&v(0, 0), &size, &vec![v(20, 0), v(5, 5), v(-9, -9), v(-10, 0)], &size),
        vec![false, true, true, false]
    );
}

#[test]
fn circles_overlap_where_their_centres_are_close() {
    assert!(circles_overlap(&v(0, 0), n(3), &v(3, 4), n(3)));
    assert!(!circles_overlap(&v(0, 0), n(2), &v(3, 4), n(3)));
    assert!(!circles_overlap(&v(0, 0), n(1), &v(3, 4), n(3)));
    assert!(circles_overlap(&v(0, 0), n(1), &v(0, 0), n(0)));
    assert!(!circles_overlap(&v(0, 0), n(0), &v(0, 0), n(0)));
}

#[test]
fn a_ball_is_measured_against_walls_paddles_and_edges() {
    let f = field();
    let paddles = vec![v(50, 250), v(730, 250)];
    let contact = measure(&v(60, 300), &paddles, &f);
    assert!(!contact.wall);
    assert_eq!(contact.paddles, vec![true, false]);
    assert_eq!(contact.exit, None);
    let contact = measure(&v(-16, 0), &paddles, &f);
    assert!(contact.wall);
    assert_eq!(contact.paddles, vec![false, false]);
    assert_eq!(contact.exit, Some(Edge::Left));
    assert_eq!(measure(&v(-15, 585), &paddles, &f).exit, None);
    assert!(measure(&v(-15, 585), &paddles, &f).wall);
    assert!(!measure(&v(400, 584), &paddles, &f).wall);
    assert_eq!(measure(&v(800, 300), &paddles, &f).exit, None);
    assert_eq!(measure(&v(801, 300), &paddles, &f).exit, Some(Edge::Right));
    assert_eq!(field_centre(&f), Vector { x: Fixed { raw: 392_500_000 }, y: Fixed { raw: 292_500_000 } });
}

#[test]
fn a_response_is_carried_out() {
    let f = field();
    let paddles = vec![v(50, 250)];
    let serve = v(-400, 12);
    let mut ball = Moving { position: v(60, -2), velocity: v(-400, -30) };
    let response = BallResponse { bounce_off_wall: true, paddle: None, scored: None };
    answer(&mut ball, &response, &paddles, &f, serve);
    assert_eq!(ball, Moving { position: v(60, 0), velocity: v(-400, 30) });
    let mut ball = Moving { position: v(900, 300), velocity: v(400, 30) };
    let response = BallResponse { bounce_off_wall: false, paddle: None, scored: Some(Side::Player) };
    answer(&mut ball, &response, &paddles, &f, serve);
    assert_eq!(ball, Moving { position: field_centre(&f), velocity: serve });
    let mut ball = Moving { position: Vector { x: n(60), y: Fixed { raw: 292_500_000 } }, velocity: v(-400, 0) };
    let response = BallResponse { bounce_off_wall: false, paddle: Some(0), scored: None };
    answer(&mut ball, &response, &paddles, &f, serve);
    assert_eq!(ball.velocity, v(400, 0));
}

#[test]
fn scoring_resets_the_ball_in_the_same_step() {
    let f = field();
    let paddles = vec![v(50, 250), v(730, 250)];
    let serve = v(400, -20);
    let mut balls = vec![
        Moving { position: v(60, 300), velocity: v(-400, 0) },
        Moving { position: v(801, 300), velocity: v(400, 10) },
        Moving { position: v(-20, 300), velocity: v(-400, 10) },
    ];
    let mut score = Score { player_score: 2, ai_score: 3 };
    let responses = collision_step(&mut balls, &paddles, &f, &mut score, serve);
    assert_eq!(
        responses,
        vec![
            BallResponse { bounce_off_wall: false, paddle: Some(0), scored: None },
            BallResponse { bounce_off_wall: false, paddle: None, scored: Some(Side::Player) },
        ]
    );
    assert_eq!(score, Score { player_score: 3, ai_score: 3 });
    assert_eq!(balls[0].position, v(60, 300));
    assert_eq!(balls[0].velocity.x, n(400));
    assert_eq!(balls[1], Moving { position: field_centre(&f), velocity: serve });
    assert_eq!(balls[2], Moving { position: v(-20, 300), velocity: v(-400, 10) });
}

#[test]
fn a_ball_breaks_the_first_brick_it_overlaps() {
    let mut world = init();
    let mut bricks = Vec::new();
    for hits_required in [1, 2] {
        let e = create_entity(&mut world);
        insert_brick(&mut world, e, Brick { hits_required, points: 10 });
        bricks.push(e);
    }
    assert_eq!(brick_entities(&world), bricks);
    let places = vec![v(20, 50), v(85, 50)];
    let (ball_size, brick_size) = (v(12, 12), v(60, 20));
    let mut ball = Moving { position: v(80, 60), velocity: v(300, -300) };
    let hit = brick_step(&mut world, &mut ball, &ball_size, &bricks, &places, &brick_size);
    assert_eq!(hit, Some((1, BrickHit::Damaged { hits_left: 1 })));
    assert_eq!(ball.velocity, v(300, 300));
    let mut ball = Moving { position: v(75, 60), velocity: v(300, -300) };
    let hit = brick_step(&mut world, &mut ball, &ball_size, &bricks, &places, &brick_size);
    assert_eq!(hit, Some((0, BrickHit::Destroyed { points: 10 })));
    assert!(is_marked(&world, bricks[0]));
    assert!(!is_marked(&world, bricks[1]));
    let mut ball = Moving { position: v(75, 60), velocity: v(300, -300) };
    let hit = brick_step(&mut world, &mut ball, &ball_size, &bricks, &places, &brick_size);
    assert_eq!(hit, Some((0, BrickHit::Missed)));
    assert_eq!(ball.velocity, v(300, -300));
    let mut ball = Moving { position: v(400, 300), velocity: v(300, -300) };
    assert_eq!(brick_step(&mut world, &mut ball, &ball_size, &bricks, &places, &brick_size), None);
    assert_eq!(ball.velocity, v(300, -300));
}

fn circle(x: i32, y: i32, radius: i32, vx: i32, vy: i32) -> Dynamic<Fixed> {
    Dynamic { position: v(x, y), velocity: v(vx, vy), collider: Collider::new_circle(n(radius)) }
}

#[test]
fn colliders_are_made_solid() {
    assert_eq!(
        Collider::new_circle(n(3)),
        Collider { shape: Shape::Circle { radius: n(3) }, is_trigger: false }
    );
    assert_eq!(
        Collider::new_rectangle(n(3), n(4)),
        Collider { shape: Shape::Rectangle { width: n(3), height: n(4) }, is_trigger: false }
    );
}

#[test]
fn shapes_are_tested_kind_by_kind() {
    let (big, small) = (Collider::new_circle(n(5)), Collider::new_circle(n(1)));
    let (wide, tall) = (Collider::new_rectangle(n(10), n(2)), Collider::new_rectangle(n(2), n(10)));
    assert!(check_collision(&v(0, 0), &big, &v(3, 4), &small));
    assert!(!check_collision(&v(0, 0), &small, &v(3, 4), &small));
    assert!(check_collision(&v(0, 0), &wide, &v(1, 1), &tall));
    assert!(!check_collision(&v(0, 0), &wide, &v(1, 2), &tall));
    assert!(!check_collision(&v(0, 0), &big, &v(0, 0), &wide));
    assert!(!check_collision(&v(0, 0), &tall, &v(0, 0), &small));
}

#[test]
fn a_rebound_reverses_and_slows() {
    let mut velocity = v(10, -20);
    rebound(&mut velocity, Fixed::from_ratio(4, 5));
    assert_eq!(velocity, v(-8, 16));
}

#[test]
fn colliding_pairs_rebound_once_for_each_collision() {
    let restitution = Fixed::from_ratio(1, 2);
    let mut bodies = vec![
        circle(0, 0, 2, 8, 0),
        circle(3, 0, 2, -8, 16),
        circle(6, 0, 2, 0, 8),
        circle(100, 100, 2, 1, 1),
    ];
    let places: Vec<_> = bodies.iter().map(|b| b.position).collect();
    pairwise_step(&mut bodies, restitution);
    assert_eq!(bodies[0].velocity, v(-4, 0));
    assert_eq!(bodies[1].velocity, v(-2, 4));
    assert_eq!(bodies[2].velocity, v(0, -4));
    assert_eq!(bodies[3].velocity, v(1, 1));
    assert_eq!(bodies.iter().map(|b| b.position).collect::<Vec<_>>(), places);
    let mut none: Vec<Dynamic<Fixed>> = Vec::new();
    pairwise_step(&mut none, restitution);
    assert!(none.is_empty());
    let mut alone = vec![circle(0, 0, 2, 8, 0)];
    pairwise_step(&mut alone, restitution);
    assert_eq!(alone[0].velocity, v(8, 0));
}

#[test]
fn side_walls_reflect_and_put_the_ball_back() {
    // Beyond the left wall: back at the wall, moving right.
    let mut ball = Moving { position: v(-3, 50), velocity: v(-40, 7) };
    bounce_off_sides(&mut ball, &field());
    assert_eq!(ball, Moving { position: v(0, 50), velocity: v(40, 7) });
    // Exactly at the left wall: reflected where it is.
    let mut ball = Moving { position: v(0, 50), velocity: v(-40, 7) };
    bounce_off_sides(&mut ball, &field());
    assert_eq!(ball, Moving { position: v(0, 50), velocity: v(40, 7) });
    // At the right wall the ball's own size counts: 800 - 15.
    let mut ball = Moving { position: v(785, 50), velocity: v(40, 7) };
    bounce_off_sides(&mut ball, &field());
    assert_eq!(ball, Moving { position: v(785, 50), velocity: v(-40, 7) });
    let mut ball = Moving { position: v(900, 50), velocity: v(40, 7) };
    bounce_off_sides(&mut ball, &field());
    assert_eq!(ball, Moving { position: v(785, 50), velocity: v(-40, 7) });
    // Between the walls nothing changes.
    let mut ball = Moving { position: v(784, 50), velocity: v(40, 7) };
    bounce_off_sides(&mut ball, &field());
    assert_eq!(ball, Moving { position: v(784, 50), velocity: v(40, 7) });
}

#[test]
fn an_open_field_bounces_at_the_top_and_loses_the_ball_at_the_bottom() {
    let mut ball = Moving { position: v(10, -1), velocity: v(5, -50) };
    bounce_off_top(&mut ball);
    assert_eq!(ball, Moving { position: v(10, 0), velocity: v(5, 50) });
    // Unlike a closed field, the bottom does not reflect.
    let mut ball = Moving { position: v(10, 590), velocity: v(5, 50) };
    bounce_off_top(&mut ball);
    assert_eq!(ball, Moving { position: v(10, 590), velocity: v(5, 50) });
    assert!(!ball_lost(&ball, &field()));
    assert!(!ball_lost(&Moving { position: Vector { x: n(10), y: Fixed { raw: 599_999_999 } }, velocity: v(0, 1) }, &field()));
    assert!(ball_lost(&Moving { position: v(10, 600), velocity: v(0, 1) }, &field()));
    // Sides first, then the top, then the bottom edge.
    let mut ball = Moving { position: v(-2, -2), velocity: v(-3, -4) };
    assert!(!open_field_walls(&mut ball, &field()));
    assert_eq!(ball, Moving { position: v(0, 0), velocity: v(3, 4) });
    let mut ball = Moving { position: v(790, 601), velocity: v(3, 4) };
    assert!(open_field_walls(&mut ball, &field()));
    assert_eq!(ball, Moving { position: v(785, 601), velocity: v(-3, 4) });
}

#[test]
fn a_paddle_below_sends_the_ball_up_at_the_angle_of_the_hit() {
    let court = Field { paddle_width: n(100), paddle_height: n(20), ball_size: n(10), ..field() };
    let paddle = v(300, 550);
    // The middle of the ball over the middle of the paddle: straight up,
    // with the speed it came with.
    let mut ball = Moving { position: v(345, 545), velocity: v(30, 40) };
    launch_off_paddle(&mut ball, &paddle, &court);
    assert_eq!(ball.position, v(345, 545));
    assert_eq!(ball.velocity, v(0, -50));
    // A ball that moves upwards passes.
    let mut ball = Moving { position: v(345, 545), velocity: v(30, -40) };
    launch_off_paddle(&mut ball, &paddle, &court);
    assert_eq!(ball.velocity, v(30, -40));
    // A ball beside the paddle passes.
    let mut ball = Moving { position: v(100, 545), velocity: v(30, 40) };
    launch_off_paddle(&mut ball, &paddle, &court);
    assert_eq!(ball.velocity, v(30, 40));
    // At the right end of the paddle: a sixth of a half turn to the right,
    // where the sine is a half and the cosine the root of three quarters,
    // as near as the numbers have them.
    let mut ball = Moving { position: v(395, 545), velocity: v(0, 50) };
    launch_off_paddle(&mut ball, &paddle, &court);
    assert!((ball.velocity.x.raw - 25_000_000).abs() < 100_000, "{:?}", ball.velocity);
    assert!((ball.velocity.y.raw + 43_301_270).abs() < 100_000, "{:?}", ball.velocity);
    // Each paddle in its turn: the first sends the ball up, the second
    // lets the rising ball pass.
    let mut ball = Moving { position: v(345, 545), velocity: v(30, 40) };
    launch_off_paddles(&mut ball, &vec![paddle, paddle], &court);
    assert_eq!(ball.velocity, v(0, -50));
    let mut ball = Moving { position: v(345, 545), velocity: v(30, 40) };
    launch_off_paddles(&mut ball, &Vec::new(), &court);
    assert_eq!(ball.velocity, v(30, 40));
}

#[test]
fn the_speed_cap_is_exact_where_nothing_is_rounded() {
    // Speed 1000 against a nominal 400: capped to 480, in its direction.
    let mut velocity = v(600, 800);
    cap_speed(&mut velocity, n(400));
    assert_eq!(velocity, v(288, 384));
    let square = |f: Fixed| f.raw as i128 * f.raw as i128;
    assert_eq!(25 * (square(velocity.x) + square(velocity.y)), 36 * square(n(400)));
    // Exactly at one and a half times the nominal speed nothing is capped.
    let mut velocity = v(360, 480);
    cap_speed(&mut velocity, n(400));
    assert_eq!(velocity, v(360, 480));
    // Where a division leaves something over, the cap is a millionth off.
    let mut velocity = Vector { x: n(200), y: n(1) };
    cap_speed(&mut velocity, n(100));
    let speed = isqrt((square(velocity.x) + square(velocity.y)) as u128);
    assert!((speed as i64 - 120_000_000).abs() < 200, "{}", speed);
    assert_ne!(25 * (square(velocity.x) + square(velocity.y)), 36 * square(n(100)));
}
