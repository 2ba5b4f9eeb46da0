use modular_game_engine::game_loop::{GameLoop, GameLoopConfig, NANOS_PER_SECOND};

#[test]
fn default_config_is_sixty_steps_and_a_tenth_of_a_second() {
    let config = GameLoopConfig::default();
    assert_eq!(config.target_fps, 60);
    assert_eq!(config.max_frame_time, 100_000_000);
    assert!(config.is_valid());
    assert_eq!(config.fixed_step(), 16_666_666);
}

#[test]
fn frame_rates_outside_the_range_are_invalid() {
    assert!(!GameLoopConfig { target_fps: 0, max_frame_time: 1 }.is_valid());
    assert!(!GameLoopConfig { target_fps: 1_000_000_001, max_frame_time: 1 }.is_valid());
    assert!(GameLoopConfig { target_fps: 1, max_frame_time: 1 }.is_valid());
    assert!(GameLoopConfig { target_fps: 1_000_000_000, max_frame_time: 1 }.is_valid());
    assert_eq!(GameLoopConfig { target_fps: 1, max_frame_time: 1 }.fixed_step(), NANOS_PER_SECOND);
    assert_eq!(GameLoopConfig { target_fps: 1_000_000_000, max_frame_time: 1 }.fixed_step(), 1);
}

#[test]
fn new_driver_has_taken_no_step() {
    let driver = GameLoop::new(GameLoopConfig::default());
    assert_eq!(driver.accumulator(), 0);
    assert_eq!(driver.frame_count(), 0);
    assert_eq!(driver.fixed_step(), 16_666_666);
}

#[test]
fn a_short_frame_is_carried_over() {
    let mut driver = GameLoop::new(GameLoopConfig::default());
    assert_eq!(driver.advance(10_000_000), 0);
    assert_eq!(driver.accumulator(), 10_000_000);
    assert_eq!(driver.frame_count(), 0);
    assert_eq!(driver.advance(10_000_000), 1);
    assert_eq!(driver.accumulator(), 3_333_334);
    assert_eq!(driver.frame_count(), 1);
}

#[test]
fn a_frame_of_exactly_one_step_takes_one_step() {
    let mut driver = GameLoop::new(GameLoopConfig::default());
    assert_eq!(driver.advance(16_666_666), 1);
    assert_eq!(driver.accumulator(), 0);
}

#[test]
fn a_stall_is_capped_at_the_longest_frame() {
    let mut driver = GameLoop::new(GameLoopConfig::default());
    assert!(driver.can_advance(5_000_000_000));
    assert_eq!(driver.advance(5_000_000_000), 6);
    assert_eq!(driver.accumulator(), 100_000_000 - 6 * 16_666_666);
    assert_eq!(driver.frame_count(), 6);
}

#[test]
fn steps_depend_on_total_time_not_on_frame_lengths() {
    let config = || GameLoopConfig { target_fps: 60, max_frame_time: 100_000_000 };
    let mut steady = GameLoop::new(config());
    let mut jittery = GameLoop::new(config());
    let mut steady_ticks = 0;
    for _ in 0..10 {
        steady_ticks += steady.advance(20_000_000);
    }
    let mut jittery_ticks = 0;
    for delta in [1_000_000u64, 39_000_000, 5_000_000, 35_000_000, 100_000_000, 20_000_000] {
        jittery_ticks += jittery.advance(delta);
    }
    assert_eq!(steady_ticks, 12);
    assert_eq!(jittery_ticks, steady_ticks);
    assert_eq!(jittery.accumulator(), steady.accumulator());
    assert_eq!(jittery.frame_count(), steady.frame_count());
    assert_eq!(steady.accumulator(), 200_000_000 - 12 * 16_666_666);
}

#[test]
fn an_invalid_frame_rate_cannot_advance() {
    let driver = GameLoop::new(GameLoopConfig { target_fps: 0, max_frame_time: 100 });
    assert!(!driver.can_advance(50));
}

#[test]
fn a_step_counter_at_its_limit_cannot_advance() {
    let mut driver = GameLoop::new(GameLoopConfig { target_fps: 1_000_000_000, max_frame_time: u64::MAX });
    assert!(driver.can_advance(u64::MAX));
    assert_eq!(driver.advance(u64::MAX), u64::MAX);
    assert_eq!(driver.frame_count(), u64::MAX);
    assert!(!driver.can_advance(1));
    assert!(driver.can_advance(0));
}

#[test]
fn a_run_hands_every_step_the_fixed_step_and_nothing_else() {
    let handed = std::cell::RefCell::new(Vec::new());
    let mut driver = GameLoop::new(GameLoopConfig::default());
    // 10 ms, 10 ms, a stall of a second that counts as a tenth, 7 ms.
    let frames = vec![10_000_000, 10_000_000, 1_000_000_000, 7_000_000];
    let ticks = driver.run(&frames, &|dt: u64| handed.borrow_mut().push(dt));
    // 127 ms in all at 16.666666 ms a step: seven steps.
    assert_eq!(ticks, 7);
    assert_eq!(handed.borrow().len(), 7);
    assert!(handed.borrow().iter().all(|dt| *dt == 16_666_666));
    assert_eq!(driver.frame_count(), 7);
    assert_eq!(driver.accumulator(), 127_000_000 - 7 * 16_666_666);
}

#[test]
fn a_run_takes_the_same_steps_whatever_the_lengths_of_the_frames() {
    let count = std::cell::Cell::new(0u64);
    let mut smooth = GameLoop::new(GameLoopConfig::default());
    let mut jittery = GameLoop::new(GameLoopConfig::default());
    let a = smooth.run(&vec![20_000_000; 5], &|_| count.set(count.get() + 1));
    let b = jittery.run(&vec![1_000_000, 49_000_000, 0, 30_000_000, 20_000_000], &|_| ());
    assert_eq!(a, 6);
    assert_eq!(b, 6);
    assert_eq!(count.get(), 6);
    assert_eq!(smooth.accumulator(), jittery.accumulator());
    let none = smooth.run(&Vec::new(), &|_| count.set(99));
    assert_eq!(none, 0);
    assert_eq!(count.get(), 6);
}
