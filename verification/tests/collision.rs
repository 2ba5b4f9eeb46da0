use modular_game_engine::collision::{
    first_overlap, resolve_ball, resolve_balls, resolve_brick_contact, scoring_side, BallContact,
    BallResponse, Edge,
};
use modular_game_engine::components::{Brick, Score, Side};
use modular_game_engine::ecs::{
    brick_entities, count_bricks, create_entity, get_brick, init, insert_brick, is_marked,
    maintain, BrickHit,
};

fn contact(wall: bool, paddles: &[bool], exit: Option<Edge>) -> BallContact {
    BallContact { wall, paddles: paddles.to_vec(), exit }
}

#[test]
fn the_first_overlap_is_the_one_that_counts() {
    assert_eq!(first_overlap(&vec![]), None);
    assert_eq!(first_overlap(&vec![false, false]), None);
    assert_eq!(first_overlap(&vec![true]), Some(0));
    assert_eq!(first_overlap(&vec![false, true, true, false, true]), Some(1));
    assert_eq!(first_overlap(&vec![false, false, false, true]), Some(3));
}

#[test]
fn a_ball_past_an_edge_scores_for_the_other_side() {
    assert_eq!(scoring_side(Edge::Left), Side::Ai);
    assert_eq!(scoring_side(Edge::Right), Side::Player);
}

#[test]
fn scoring_reset() {
    let mut score = Score { player_score: 2, ai_score: 4 };
    let response = resolve_ball(&contact(false, &[false, false], Some(Edge::Right)), &mut score);
    assert_eq!(score, Score { player_score: 3, ai_score: 4 });
    assert_eq!(response, BallResponse { bounce_off_wall: false, paddle: None, scored: Some(Side::Player) });
    let response = resolve_ball(&contact(true, &[], Some(Edge::Left)), &mut score);
    assert_eq!(score, Score { player_score: 3, ai_score: 5 });
    assert_eq!(response.scored, Some(Side::Ai));
    assert!(response.bounce_off_wall);
}

#[test]
fn a_ball_in_the_field_changes_no_score() {
    let mut score = Score::default();
    let response = resolve_ball(&contact(true, &[false, true, true], None), &mut score);
    assert_eq!(score, Score { player_score: 0, ai_score: 0 });
    assert_eq!(response, BallResponse { bounce_off_wall: true, paddle: Some(1), scored: None });
}

#[test]
fn at_most_one_ball_scores_in_a_tick() {
    let contacts = vec![
        contact(true, &[false], None),
        contact(false, &[true], Some(Edge::Left)),
        contact(false, &[true], Some(Edge::Right)),
        contact(true, &[true], None),
    ];
    let mut score = Score { player_score: 1, ai_score: 1 };
    let responses = resolve_balls(&contacts, &mut score);
    assert_eq!(
        responses,
        vec![
            BallResponse { bounce_off_wall: true, paddle: None, scored: None },
            BallResponse { bounce_off_wall: false, paddle: Some(0), scored: Some(Side::Ai) },
        ]
    );
    assert_eq!(score, Score { player_score: 1, ai_score: 2 });
}

#[test]
fn without_a_score_every_ball_is_answered() {
    let contacts = vec![contact(false, &[], None), contact(true, &[false, true], None)];
    let mut score = Score { player_score: 4, ai_score: 0 };
    let responses = resolve_balls(&contacts, &mut score);
    assert_eq!(responses.len(), 2);
    assert_eq!(responses[1].paddle, Some(1));
    assert_eq!(score, Score { player_score: 4, ai_score: 0 });
    assert!(resolve_balls(&vec![], &mut score).is_empty());
}

#[test]
fn only_the_first_overlapping_brick_takes_the_hit() {
    let mut world = init();
    let mut bricks = Vec::new();
    for points in [10, 20, 30] {
        let e = create_entity(&mut world);
        insert_brick(&mut world, e, Brick { hits_required: 1, points });
        bricks.push(e);
    }
    assert_eq!(brick_entities(&world), bricks);
    let hit = resolve_brick_contact(&mut world, &bricks, &vec![false, true, true]);
    assert_eq!(hit, Some((1, BrickHit::Destroyed { points: 20 })));
    assert!(!is_marked(&world, bricks[0]));
    assert!(is_marked(&world, bricks[1]));
    assert!(!is_marked(&world, bricks[2]));
    assert_eq!(get_brick(&world, bricks[2]), Some(Brick { hits_required: 1, points: 30 }));
    maintain(&mut world);
    assert_eq!(count_bricks(&world), 2);
    assert_eq!(resolve_brick_contact(&mut world, &bricks, &vec![false, false, false]), None);
    assert_eq!(count_bricks(&world), 2);
}

#[test]
fn score_award_and_winner() {
    let mut score = Score::default();
    assert_eq!(score.winner(5), None);
    for _ in 0..5 {
        assert!(score.can_award(Side::Ai));
        score.award(Side::Ai);
    }
    assert_eq!(score, Score { player_score: 0, ai_score: 5 });
    assert_eq!(score.winner(5), Some(Side::Ai));
    assert_eq!(score.winner(6), None);
    score.award(Side::Player);
    assert_eq!(score.player_score, 1);
    let both = Score { player_score: 5, ai_score: 5 };
    assert_eq!(both.winner(5), Some(Side::Player));
    assert_eq!(both.winner(0), Some(Side::Player));
    assert!(!Score { player_score: u32::MAX, ai_score: 0 }.can_award(Side::Player));
    assert!(Score { player_score: u32::MAX, ai_score: 0 }.can_award(Side::Ai));
    score.reset();
    assert_eq!(score, Score::default());
}
