use modular_game_engine::num::{Fixed, Scalar};
use modular_game_engine::physics::Vector;
use modular_game_engine::trail_system::presets::{
    fireball_trail, magic_trail, pong_ball_trail, simple_particle_trail, spaceship_trail,
};
use modular_game_engine::trail_system::{Trail, TrailConfig, TrailSegment, TrailSystem};

/// Single precision as a number of the library.
#[derive(Debug, Clone, Copy, PartialEq)]
struct Real(f32);

impl Scalar for Real {
    fn finite(self) -> bool {
        self.0.is_finite()
    }
    fn sum(self, rhs: Real) -> Real {
        Real(self.0 + rhs.0)
    }
    fn difference(self, rhs: Real) -> Real {
        Real(self.0 - rhs.0)
    }
    fn product(self, rhs: Real) -> Real {
        Real(self.0 * rhs.0)
    }
    fn quotient(self, rhs: Real) -> Real {
        Real(self.0 / rhs.0)
    }
    fn negated(self) -> Real {
        Real(-self.0)
    }
    fn root(self) -> Real {
        Real(self.0.sqrt())
    }
    fn below(self, rhs: Real) -> bool {
        self.0 < rhs.0
    }
    fn within(self, rhs: Real) -> bool {
        self.0 <= rhs.0
    }
    fn larger(self, rhs: Real) -> Real {
        Real(self.0.max(rhs.0))
    }
    fn smaller(self, rhs: Real) -> Real {
        Real(self.0.min(rhs.0))
    }
    fn ratio(num: i32, den: i32) -> Real {
        Real(num as f32 / den as f32)
    }
    fn whole(self) -> usize {
        self.0 as usize
    }
    fn fraction(self) -> Real {
        Real(self.0.fract())
    }
    fn sine(self) -> Real {
        Real(self.0.sin())
    }
    fn cosine(self) -> Real {
        Real(self.0.cos())
    }
    fn is_finite(self) -> bool {
        self.finite()
    }
    fn plus(self, rhs: Real) -> Real {
        self.sum(rhs)
    }
    fn minus(self, rhs: Real) -> Real {
        self.difference(rhs)
    }
    fn times(self, rhs: Real) -> Real {
        self.product(rhs)
    }
    fn over(self, rhs: Real) -> Real {
        self.quotient(rhs)
    }
    fn neg(self) -> Real {
        self.negated()
    }
    fn sqrt(self) -> Real {
        self.root()
    }
    fn less_than(self, rhs: Real) -> bool {
        self.below(rhs)
    }
    fn at_most(self, rhs: Real) -> bool {
        self.within(rhs)
    }
    fn max_of(self, rhs: Real) -> Real {
        self.larger(rhs)
    }
    fn min_of(self, rhs: Real) -> Real {
        self.smaller(rhs)
    }
    fn from_ratio(num: i32, den: i32) -> Real {
        Real::ratio(num, den)
    }
    fn to_whole(self) -> usize {
        self.whole()
    }
    fn fract(self) -> Real {
        self.fraction()
    }
    fn sin(self) -> Real {
        self.sine()
    }
    fn cos(self) -> Real {
        self.cosine()
    }
}

fn at(x: f32, y: f32) -> Vector<Real> {
    Vector { x: Real(x), y: Real(y) }
}

fn fixed(x: i64, y: i64) -> Vector<Fixed> {
    Vector { x: Fixed { raw: x * 1_000_000 }, y: Fixed { raw: y * 1_000_000 } }
}

#[test]
fn test_trail_segment() {
    let mut segment = TrailSegment::new(
        at(0.0, 0.0),
        [Real(1.0), Real(1.0), Real(1.0), Real(1.0)],
        Real(5.0),
        Real(1.0),
    );

    assert!(segment.update(Real(0.5)));
    assert_eq!(segment.life, Real(0.5));
    assert_eq!(segment.normalized_life(), Real(0.5));
    assert_eq!(segment.alpha(), Real(0.5));

    assert!(!segment.update(Real(0.6))); // Should be dead
}

#[test]
fn test_trail_creation() {
    let trail = Trail::<Real>::new();
    assert_eq!(trail.config.max_segments, 20);
    assert!(trail.enabled);
    assert!(!trail.has_segments());
}

#[test]
fn test_trail_update() {
    let mut trail = Trail::<Real>::new();
    trail.config.segment_interval = Real(0.1);
    trail.config.min_distance = Real(1.0);

    // First update - should create a segment
    trail.update(Real(0.2), at(10.0, 0.0), at(100.0, 0.0));
    assert_eq!(trail.segment_count(), 1);

    // Second update - should create another segment
    trail.update(Real(0.2), at(20.0, 0.0), at(100.0, 0.0));
    assert_eq!(trail.segment_count(), 2);
}

#[test]
fn test_trail_system() {
    let mut system = TrailSystem::<Real>::new();

    system.create_trail("ball_trail");
    assert!(system.get_trail("ball_trail").is_some());

    system.update_trail("ball_trail", Real(0.1), at(0.0, 0.0), at(0.0, 0.0));
    assert_eq!(system.total_segments(), 0); // No movement, no segments

    system.clear_all();
    assert_eq!(system.get_trail_ids().len(), 0);
}

#[test]
fn test_trail_presets() {
    let pong_config = pong_ball_trail::<Real>();
    assert_eq!(pong_config.max_segments, 20);
    assert_eq!(pong_config.base_color, [Real(0.5), Real(0.5), Real(1.0), Real(0.8)]);

    let fireball_config = fireball_trail::<Real>();
    assert_eq!(fireball_config.base_color, [Real(1.0), Real(0.3), Real(0.0), Real(0.9)]);
}

#[test]
fn the_plain_configuration_has_its_documented_values() {
    let config = TrailConfig::<Real>::default();
    assert_eq!(config.max_segments, 20);
    assert_eq!(config.segment_interval, Real(0.05));
    assert_eq!(config.segment_life, Real(1.0));
    assert_eq!(config.base_color, [Real(1.0), Real(1.0), Real(1.0), Real(1.0)]);
    assert_eq!(config.base_size, Real(3.0));
    assert!(config.fade_enabled);
    assert!(config.shrink_enabled);
    assert_eq!(config.min_alpha, Real(0.1));
    assert_eq!(config.fade_speed, Real(2.0));
    assert!(!config.velocity_based);
    assert_eq!(config.min_distance, Real(5.0));
}

#[test]
fn the_other_presets_have_their_documented_values() {
    let ship = spaceship_trail::<Real>();
    assert_eq!(ship.max_segments, 25);
    assert_eq!(ship.segment_interval, Real(0.01));
    assert_eq!(ship.segment_life, Real(0.3));
    assert_eq!(ship.base_color, [Real(0.2), Real(0.8), Real(1.0), Real(0.7)]);
    assert!(!ship.shrink_enabled);
    assert_eq!(ship.min_alpha, Real(0.0));
    assert_eq!(ship.fade_speed, Real(4.0));
    let magic = magic_trail::<Real>();
    assert_eq!(magic.max_segments, 30);
    assert_eq!(magic.segment_interval, Real(0.04));
    assert_eq!(magic.segment_life, Real(1.5));
    assert_eq!(magic.base_color, [Real(0.8), Real(0.2), Real(1.0), Real(0.6)]);
    assert_eq!(magic.fade_speed, Real(1.5));
    assert!(!magic.velocity_based);
    let particle = simple_particle_trail::<Real>();
    assert_eq!(particle.max_segments, 10);
    assert_eq!(particle.segment_interval, Real(0.1));
    assert_eq!(particle.base_color, [Real(1.0), Real(1.0), Real(1.0), Real(0.5)]);
    assert_eq!(particle.min_distance, Real(8.0));
    let ball = pong_ball_trail::<Real>();
    assert_eq!(ball.segment_interval, Real(0.02));
    assert_eq!(ball.fade_speed, Real(3.0));
    assert!(ball.velocity_based);
}

#[test]
fn the_newest_segment_comes_first_and_the_oldest_leave() {
    let mut config = TrailConfig::<Fixed>::default();
    config.max_segments = 2;
    let mut trail = Trail::with_config(config);
    trail.add_segment(fixed(1, 0), fixed(0, 0));
    trail.add_segment(fixed(2, 0), fixed(0, 0));
    trail.add_segment(fixed(3, 0), fixed(0, 0));
    assert_eq!(trail.segment_count(), 2);
    assert_eq!(trail.get_segments()[0].position, fixed(3, 0));
    assert_eq!(trail.get_segments()[1].position, fixed(2, 0));
}

#[test]
fn a_trail_that_holds_nothing_keeps_no_segment() {
    let mut config = TrailConfig::<Fixed>::default();
    config.max_segments = 0;
    let mut trail = Trail::with_config(config);
    trail.add_segment(fixed(1, 0), fixed(0, 0));
    assert!(!trail.has_segments());
}

#[test]
fn a_fast_thing_leaves_a_stronger_and_larger_segment() {
    let mut trail = Trail::with_config(pong_ball_trail::<Fixed>());
    // At rest: alpha 0.8 * 0.5, size 2 * 0.8.
    trail.add_segment(fixed(0, 0), fixed(0, 0));
    assert_eq!(trail.get_segments()[0].color[3], Fixed { raw: 400_000 });
    assert_eq!(trail.get_segments()[0].size, Fixed { raw: 1_600_000 });
    // At 250 units a second: alpha 0.8 * 0.75, size 2 * 1.0.
    trail.add_segment(fixed(0, 0), fixed(250, 0));
    assert_eq!(trail.get_segments()[0].color[3], Fixed { raw: 600_000 });
    assert_eq!(trail.get_segments()[0].size, Fixed { raw: 2_000_000 });
    // Beyond 500 units a second the factor stays at one.
    trail.add_segment(fixed(0, 0), fixed(0, 900));
    assert_eq!(trail.get_segments()[0].color[3], Fixed { raw: 800_000 });
    assert_eq!(trail.get_segments()[0].size, Fixed { raw: 2_400_000 });
    assert_eq!(trail.get_segments()[0].color[0], Fixed { raw: 500_000 });
    assert_eq!(trail.get_segments()[0].life, Fixed { raw: 500_000 });
    assert_eq!(trail.get_segments()[0].max_life, Fixed { raw: 500_000 });
}

#[test]
fn an_update_ages_the_segments_and_drops_the_dead() {
    let mut trail = Trail::<Fixed>::new();
    trail.add_segment(fixed(0, 0), fixed(0, 0));
    // Too short a time and no way moved: no new segment.
    trail.update(Fixed { raw: 400_000 }, fixed(0, 0), fixed(0, 0));
    assert_eq!(trail.segment_count(), 1);
    assert_eq!(trail.get_segments()[0].life, Fixed { raw: 600_000 });
    assert_eq!(trail.time_since_last_segment, Fixed { raw: 400_000 });
    // The rest of its life runs out exactly: the segment leaves.
    trail.update(Fixed { raw: 600_000 }, fixed(0, 0), fixed(0, 0));
    assert_eq!(trail.segment_count(), 0);
}

#[test]
fn a_segment_needs_both_the_interval_and_the_distance() {
    let mut trail = Trail::<Fixed>::new();
    // Far enough, but too soon.
    trail.update(Fixed { raw: 10_000 }, fixed(10, 0), fixed(0, 0));
    assert_eq!(trail.segment_count(), 0);
    // Late enough, but too near: the least distance is 5.
    trail.update(Fixed { raw: 50_000 }, fixed(3, 3), fixed(0, 0));
    assert_eq!(trail.segment_count(), 0);
    // Exactly the least distance, and late enough.
    trail.update(Fixed { raw: 0 }, fixed(3, 4), fixed(7, 0));
    assert_eq!(trail.segment_count(), 1);
    assert_eq!(trail.last_position, fixed(3, 4));
    assert_eq!(trail.last_velocity, fixed(7, 0));
    assert_eq!(trail.time_since_last_segment, Fixed { raw: 0 });
}

#[test]
fn a_disabled_trail_stays_as_it_is() {
    let mut trail = Trail::<Fixed>::new();
    trail.add_segment(fixed(0, 0), fixed(0, 0));
    trail.set_enabled(false);
    assert!(!trail.enabled);
    assert!(!trail.has_segments());
    trail.update(Fixed { raw: 1_000_000 }, fixed(100, 0), fixed(0, 0));
    assert!(!trail.has_segments());
    assert_eq!(trail.time_since_last_segment, Fixed { raw: 0 });
    trail.set_enabled(true);
    trail.update(Fixed { raw: 1_000_000 }, fixed(100, 0), fixed(0, 0));
    assert_eq!(trail.segment_count(), 1);
}

#[test]
fn the_system_keeps_each_trail_under_its_name() {
    let mut system = TrailSystem::<Fixed>::new();
    system.create_trail("ball").config.max_segments = 3;
    system.create_trail_with_config("spell", magic_trail());
    system.add_trail("spark", Trail::with_config(simple_particle_trail()));
    assert_eq!(system.get_trail_ids(), vec!["ball".to_string(), "spell".to_string(), "spark".to_string()]);
    assert_eq!(system.get_trail("ball").unwrap().config.max_segments, 3);
    assert_eq!(system.get_trail("spell").unwrap().config.max_segments, 30);
    assert!(system.get_trail("comet").is_none());
    assert!(system.get_trail_mut("comet").is_none());

    system.update_trail("ball", Fixed { raw: 1_000_000 }, fixed(10, 0), fixed(0, 0));
    system.update_trail("comet", Fixed { raw: 1_000_000 }, fixed(10, 0), fixed(0, 0));
    system.get_trail_mut("spell").unwrap().add_segment(fixed(0, 0), fixed(0, 0));
    system.get_trail_mut("spell").unwrap().add_segment(fixed(1, 0), fixed(0, 0));
    assert!(system.can_total());
    assert_eq!(system.total_segments(), 3);

    system.set_trail_enabled("spell", false);
    assert_eq!(system.total_segments(), 1);
    system.update_all(Fixed { raw: 1_000_000 });
    assert_eq!(system.total_segments(), 1);
    system.remove_trail("ball");
    assert!(system.get_trail("ball").is_none());
    assert_eq!(system.get_trail_ids().len(), 2);
    assert_eq!(system.total_segments(), 0);
}
