use modular_game_engine::pipeline::{Pipeline, PipelineError};
use modular_game_engine::systems::{
    core_pipeline, core_stores, CleanupSystem, CollisionSystem, HealthSystem, InputSystem,
    PhysicsSystem, RenderingSystem, ACCELERATION, BALL, COLLIDER, ENTITIES, PADDLE, POSITION,
    SCORE, STORE_COUNT, TIME, VELOCITY,
};

fn names(list: &[&str]) -> Vec<String> {
    list.iter().map(|s| s.to_string()).collect()
}

#[test]
fn systems_are_numbered_in_order_of_registration() {
    let mut pipeline = Pipeline::new(vec![1, 2, 3]);
    assert_eq!(pipeline.len(), 0);
    assert_eq!(pipeline.register("input", &names(&[]), vec![1], vec![2]), Ok(0));
    assert_eq!(pipeline.register("physics", &names(&["input"]), vec![2], vec![3]), Ok(1));
    assert_eq!(pipeline.register("collision", &names(&["physics", "input"]), vec![], vec![3]), Ok(2));
    assert_eq!(pipeline.len(), 3);
    assert_eq!(pipeline.system(2).name, "collision");
    assert_eq!(pipeline.system(2).after, vec![1, 0]);
    assert_eq!(pipeline.system(1).reads, vec![2]);
    assert_eq!(pipeline.system(1).writes, vec![3]);
    assert_eq!(pipeline.dispatch_order(), vec![0, 1, 2]);
    assert_eq!(pipeline.find("physics"), Some(1));
    assert_eq!(pipeline.find("render"), None);
    assert_eq!(pipeline.find(""), None);
}

#[test]
fn a_dependency_on_an_unregistered_system_is_refused() {
    let mut pipeline = Pipeline::new(vec![]);
    assert_eq!(pipeline.register("a", &names(&[]), vec![], vec![]), Ok(0));
    assert_eq!(
        pipeline.register("b", &names(&["a", "c", "d"]), vec![], vec![]),
        Err(PipelineError::UnknownDependency { position: 1 })
    );
    assert_eq!(
        pipeline.register("b", &names(&["b"]), vec![], vec![]),
        Err(PipelineError::UnknownDependency { position: 0 })
    );
    assert_eq!(pipeline.len(), 1);
}

#[test]
fn a_cycle_cannot_be_registered() {
    let mut pipeline = Pipeline::new(vec![]);
    assert_eq!(
        pipeline.register("first", &names(&["second"]), vec![], vec![]),
        Err(PipelineError::UnknownDependency { position: 0 })
    );
    assert_eq!(pipeline.register("second", &names(&[]), vec![], vec![]), Ok(0));
    assert_eq!(pipeline.register("first", &names(&["second"]), vec![], vec![]), Ok(1));
    assert_eq!(
        pipeline.register("second", &names(&["first"]), vec![], vec![]),
        Err(PipelineError::DuplicateName)
    );
}

#[test]
fn a_name_can_be_used_once_and_the_empty_name_often() {
    let mut pipeline = Pipeline::new(vec![]);
    assert_eq!(pipeline.register("a", &names(&[]), vec![], vec![]), Ok(0));
    assert_eq!(pipeline.register("a", &names(&[]), vec![], vec![]), Err(PipelineError::DuplicateName));
    assert_eq!(pipeline.register("", &names(&[]), vec![], vec![]), Ok(1));
    assert_eq!(pipeline.register("", &names(&["a"]), vec![], vec![]), Ok(2));
    assert_eq!(
        pipeline.register("c", &names(&[""]), vec![], vec![]),
        Err(PipelineError::UnknownDependency { position: 0 })
    );
}

#[test]
fn a_system_on_a_store_the_world_lacks_is_refused() {
    let mut pipeline = Pipeline::new(vec![1, 2]);
    assert_eq!(
        pipeline.register("a", &names(&[]), vec![1, 7, 9], vec![8]),
        Err(PipelineError::UnknownStore { store: 7 })
    );
    assert_eq!(
        pipeline.register("a", &names(&[]), vec![1, 2], vec![2, 8]),
        Err(PipelineError::UnknownStore { store: 8 })
    );
    assert_eq!(pipeline.len(), 0);
    assert_eq!(
        pipeline.register("a", &names(&["x"]), vec![7], vec![]),
        Err(PipelineError::UnknownDependency { position: 0 })
    );
}

#[test]
fn writers_conflict_with_readers_and_writers_of_the_same_store() {
    let mut pipeline = Pipeline::new(vec![1, 2, 3]);
    pipeline.register("reads_one", &names(&[]), vec![1], vec![]).unwrap();
    pipeline.register("also_reads_one", &names(&[]), vec![1, 2], vec![]).unwrap();
    pipeline.register("writes_one", &names(&[]), vec![], vec![1]).unwrap();
    pipeline.register("writes_three", &names(&[]), vec![2], vec![3]).unwrap();
    assert!(!pipeline.conflict(0, 1));
    assert!(pipeline.conflict(0, 2));
    assert!(pipeline.conflict(2, 0));
    assert!(pipeline.conflict(2, 2));
    assert!(!pipeline.conflict(0, 0));
    assert!(!pipeline.conflict(2, 3));
    assert!(!pipeline.conflict(1, 3));
}

#[test]
fn the_core_pipeline_runs_physics_then_collision_then_the_systems_of_the_game() {
    let pipeline = core_pipeline();
    assert_eq!(pipeline.len(), 4);
    assert_eq!(pipeline.system(0).name, "physics");
    assert_eq!(pipeline.system(1).name, "collision");
    assert_eq!(pipeline.system(2).name, "rendering");
    assert_eq!(pipeline.system(3).name, "input");
    assert!(pipeline.system(0).after.is_empty());
    assert_eq!(pipeline.system(1).after, vec![0]);
    assert_eq!(pipeline.system(2).after, vec![0]);
    assert!(pipeline.system(3).after.is_empty());
    assert_eq!(pipeline.dispatch_order(), vec![0, 1, 2, 3]);
    // Physics and collision both write positions and velocities.
    assert!(pipeline.conflict(0, 1));
    assert!(pipeline.conflict(0, 2));
    assert!(pipeline.conflict(0, 3));
    assert!(pipeline.conflict(1, 2));
    assert!(pipeline.conflict(1, 3));
    assert!(!pipeline.conflict(2, 3));
}

#[test]
fn the_systems_declare_their_stores() {
    assert_eq!(core_stores(), (0..STORE_COUNT).collect::<Vec<u32>>());
    assert_eq!(PhysicsSystem::reads(), vec![ACCELERATION, TIME]);
    assert_eq!(PhysicsSystem::writes(), vec![POSITION, VELOCITY]);
    assert_eq!(InputSystem::writes(), vec![VELOCITY]);
    assert_eq!(CollisionSystem::reads(), vec![ENTITIES, COLLIDER, PADDLE, BALL]);
    assert_eq!(CollisionSystem::writes(), vec![POSITION, VELOCITY, SCORE]);
    assert!(RenderingSystem::writes().is_empty());
    assert!(CleanupSystem::writes().is_empty());
    assert_eq!(HealthSystem::writes().len(), 2);
}
