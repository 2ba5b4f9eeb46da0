use modular_game_engine::components::Brick;
use modular_game_engine::ecs::{
    brick_entities, cleanup, count_bricks, create_entity, destroy, entity_id, get_brick,
    hit_brick, init, insert_brick, is_alive, is_marked, is_present, maintain, marked_entities,
    remove_brick, BrickHit,
};

#[test]
fn a_new_world_is_empty() {
    let world = init();
    assert_eq!(count_bricks(&world), 0);
    assert!(marked_entities(&world).is_empty());
    assert!(brick_entities(&world).is_empty());
}

#[test]
fn a_created_entity_is_alive_and_bare() {
    let mut world = init();
    let e = create_entity(&mut world);
    assert!(is_alive(&world, e));
    assert!(is_present(&world, e));
    assert!(!is_marked(&world, e));
    assert_eq!(get_brick(&world, e), None);
    let f = create_entity(&mut world);
    assert_ne!(e, f);
    assert_ne!(entity_id(e), entity_id(f));
}

#[test]
fn a_destroyed_entity_stays_queryable_until_maintain() {
    let mut world = init();
    let e = create_entity(&mut world);
    let brick = Brick { hits_required: 2, points: 30 };
    assert!(insert_brick(&mut world, e, brick));
    destroy(&mut world, e);
    assert!(!is_alive(&world, e));
    assert!(is_present(&world, e));
    assert!(is_marked(&world, e));
    assert_eq!(get_brick(&world, e), Some(brick));
    maintain(&mut world);
    assert!(!is_alive(&world, e));
    assert!(!is_present(&world, e));
    assert!(!is_marked(&world, e));
    assert_eq!(get_brick(&world, e), None);
}

#[test]
fn destroying_twice_or_after_death_does_nothing() {
    let mut world = init();
    let e = create_entity(&mut world);
    let other = create_entity(&mut world);
    destroy(&mut world, e);
    destroy(&mut world, e);
    assert_eq!(marked_entities(&world), vec![e]);
    maintain(&mut world);
    destroy(&mut world, e);
    assert!(marked_entities(&world).is_empty());
    assert!(is_alive(&world, other));
    maintain(&mut world);
    assert!(is_alive(&world, other));
}

#[test]
fn a_recycled_slot_does_not_revive_a_stale_handle() {
    let mut world = init();
    let old = create_entity(&mut world);
    destroy(&mut world, old);
    maintain(&mut world);
    let new = create_entity(&mut world);
    assert_eq!(entity_id(new), entity_id(old));
    assert_ne!(new, old);
    assert!(is_alive(&world, new));
    assert!(!is_alive(&world, old));
    assert!(!is_present(&world, old));
    assert!(insert_brick(&mut world, new, Brick { hits_required: 1, points: 5 }));
    assert_eq!(get_brick(&world, old), None);
    assert!(!insert_brick(&mut world, old, Brick { hits_required: 9, points: 9 }));
    assert_eq!(get_brick(&world, new), Some(Brick { hits_required: 1, points: 5 }));
    destroy(&mut world, old);
    assert!(is_alive(&world, new));
}

#[test]
fn a_component_put_on_a_pending_entity_goes_with_it() {
    let mut world = init();
    let e = create_entity(&mut world);
    destroy(&mut world, e);
    assert!(insert_brick(&mut world, e, Brick { hits_required: 1, points: 1 }));
    assert_eq!(count_bricks(&world), 1);
    maintain(&mut world);
    assert_eq!(count_bricks(&world), 0);
    assert_eq!(get_brick(&world, e), None);
}

#[test]
fn cleanup_alone_removes_nothing() {
    let mut world = init();
    let e = create_entity(&mut world);
    insert_brick(&mut world, e, Brick { hits_required: 1, points: 1 });
    destroy(&mut world, e);
    cleanup(&mut world);
    assert!(is_present(&world, e));
    assert_eq!(get_brick(&world, e), Some(Brick { hits_required: 1, points: 1 }));
    maintain(&mut world);
    assert!(!is_present(&world, e));
}

#[test]
fn two_joins_in_one_tick_give_the_same_entities_in_the_same_order() {
    let mut world = init();
    let mut made = Vec::new();
    for i in 0..6 {
        let e = create_entity(&mut world);
        if i % 2 == 0 {
            insert_brick(&mut world, e, Brick { hits_required: 1, points: i });
        }
        made.push(e);
    }
    let first = brick_entities(&world);
    let second = brick_entities(&world);
    assert_eq!(first, second);
    assert_eq!(first, vec![made[0], made[2], made[4]]);
    destroy(&mut world, made[2]);
    assert_eq!(brick_entities(&world), first);
    maintain(&mut world);
    assert_eq!(brick_entities(&world), vec![made[0], made[4]]);
}

#[test]
fn joins_list_by_ascending_index() {
    let mut world = init();
    let a = create_entity(&mut world);
    let b = create_entity(&mut world);
    let c = create_entity(&mut world);
    destroy(&mut world, a);
    maintain(&mut world);
    let d = create_entity(&mut world);
    assert_eq!(entity_id(d), entity_id(a));
    for e in [c, b, d] {
        insert_brick(&mut world, e, Brick { hits_required: 1, points: 0 });
    }
    assert_eq!(brick_entities(&world), vec![d, b, c]);
}

#[test]
fn brick_break() {
    let mut world = init();
    let brick = create_entity(&mut world);
    let other = create_entity(&mut world);
    insert_brick(&mut world, brick, Brick { hits_required: 1, points: 60 });
    insert_brick(&mut world, other, Brick { hits_required: 3, points: 20 });
    let bricks_remaining = count_bricks(&world);
    assert_eq!(bricks_remaining, 2);
    assert_eq!(hit_brick(&mut world, brick), BrickHit::Destroyed { points: 60 });
    assert!(is_marked(&world, brick));
    assert_eq!(count_bricks(&world), 2);
    maintain(&mut world);
    assert_eq!(count_bricks(&world), bricks_remaining - 1);
    assert_eq!(brick_entities(&world), vec![other]);
    assert!(!is_present(&world, brick));
}

#[test]
fn a_brick_that_needs_more_hits_survives() {
    let mut world = init();
    let brick = create_entity(&mut world);
    insert_brick(&mut world, brick, Brick { hits_required: 3, points: 20 });
    assert_eq!(hit_brick(&mut world, brick), BrickHit::Damaged { hits_left: 2 });
    assert_eq!(get_brick(&world, brick), Some(Brick { hits_required: 2, points: 20 }));
    assert_eq!(hit_brick(&mut world, brick), BrickHit::Damaged { hits_left: 1 });
    assert!(is_alive(&world, brick));
    maintain(&mut world);
    assert_eq!(count_bricks(&world), 1);
    assert_eq!(hit_brick(&mut world, brick), BrickHit::Destroyed { points: 20 });
    assert_eq!(get_brick(&world, brick), Some(Brick { hits_required: 0, points: 20 }));
    assert_eq!(hit_brick(&mut world, brick), BrickHit::Missed);
    maintain(&mut world);
    assert_eq!(count_bricks(&world), 0);
}

#[test]
fn a_hit_on_nothing_misses() {
    let mut world = init();
    let bare = create_entity(&mut world);
    assert_eq!(hit_brick(&mut world, bare), BrickHit::Missed);
    assert!(is_alive(&world, bare));
    let worn = create_entity(&mut world);
    insert_brick(&mut world, worn, Brick { hits_required: -4, points: 7 });
    assert_eq!(hit_brick(&mut world, worn), BrickHit::Destroyed { points: 7 });
}

#[test]
fn removing_a_brick_returns_it() {
    let mut world = init();
    let e = create_entity(&mut world);
    assert_eq!(remove_brick(&mut world, e), None);
    insert_brick(&mut world, e, Brick { hits_required: 2, points: 3 });
    insert_brick(&mut world, e, Brick { hits_required: 5, points: 8 });
    assert_eq!(count_bricks(&world), 1);
    assert_eq!(remove_brick(&mut world, e), Some(Brick { hits_required: 5, points: 8 }));
    assert_eq!(count_bricks(&world), 0);
    assert!(is_alive(&world, e));
}
