use battlesnake_logic::model::{Battlesnake, Board, Coord};
use battlesnake_logic::scoring::{aggregate_scores, determine_score_directions, scores, ScoreMap, ScoreOp};

fn coord(x: u32, y: u32) -> Coord {
    Coord { x, y }
}

fn snake(id: &str, body: Vec<Coord>) -> Battlesnake {
    Battlesnake { id: id.to_string(), head: body[0], body }
}

fn board(width: u32, height: u32, food: Vec<Coord>, snakes: Vec<Battlesnake>) -> Board {
    Board { width, height, food, snakes }
}

fn empty_map() -> ScoreMap {
    ScoreMap { up: 0, down: 0, left: 0, right: 0 }
}

#[test]
fn scores_are_per_axis_deltas() {
    assert_eq!(scores(&coord(2, 3), &coord(5, 1)), (3, -2));
    assert_eq!(scores(&coord(5, 5), &coord(5, 5)), (0, 0));
    assert_eq!(scores(&coord(7, 0), &coord(0, 9)), (-7, 9));
}

#[test]
fn penalty_subtracts_closeness_once() {
    let b = board(11, 11, vec![], vec![]);
    let mut moves = empty_map();
    determine_score_directions(&coord(5, 5), &coord(3, 5), &b, &mut moves, ScoreOp::Penalty);
    assert_eq!(moves, ScoreMap { up: 0, down: 0, left: -9, right: 0 });
}

#[test]
fn reward_adds_twice_the_closeness() {
    let b = board(11, 11, vec![], vec![]);
    let mut moves = empty_map();
    determine_score_directions(&coord(5, 5), &coord(3, 5), &b, &mut moves, ScoreOp::Reward);
    assert_eq!(moves, ScoreMap { up: 0, down: 0, left: 18, right: 0 });
}

#[test]
fn diagonal_target_touches_both_axes() {
    let b = board(11, 11, vec![], vec![]);
    let mut moves = empty_map();
    determine_score_directions(&coord(5, 5), &coord(7, 8), &b, &mut moves, ScoreOp::Penalty);
    assert_eq!(moves, ScoreMap { up: -8, down: 0, left: 0, right: -9 });
}

#[test]
fn coincident_target_changes_nothing() {
    let b = board(11, 11, vec![], vec![]);
    let mut moves = ScoreMap { up: 4, down: -2, left: 1, right: 0 };
    determine_score_directions(&coord(5, 5), &coord(5, 5), &b, &mut moves, ScoreOp::Penalty);
    assert_eq!(moves, ScoreMap { up: 4, down: -2, left: 1, right: 0 });
}

#[test]
fn adjustments_accumulate() {
    let b = board(11, 11, vec![], vec![]);
    let mut moves = empty_map();
    determine_score_directions(&coord(5, 5), &coord(3, 5), &b, &mut moves, ScoreOp::Penalty);
    determine_score_directions(&coord(5, 5), &coord(4, 5), &b, &mut moves, ScoreOp::Penalty);
    assert_eq!(moves, ScoreMap { up: 0, down: 0, left: -19, right: 0 });
}

#[test]
fn wall_scores_center_head() {
    let me = snake("me", vec![coord(5, 5)]);
    let b = board(11, 11, vec![], vec![me.clone()]);
    let moves = aggregate_scores(&b, &me.head);
    assert_eq!(moves, ScoreMap { up: -5, down: -6, left: -6, right: -5 });
}

#[test]
fn food_above_scores_up_strictly_highest() {
    let me = snake("me", vec![coord(5, 5), coord(5, 5), coord(5, 5)]);
    let b = board(11, 11, vec![coord(5, 6)], vec![me.clone()]);
    let moves = aggregate_scores(&b, &me.head);
    assert_eq!(moves, ScoreMap { up: 15, down: -6, left: -6, right: -5 });
    assert!(moves.up > moves.down);
    assert!(moves.up > moves.left);
    assert!(moves.up > moves.right);
}

#[test]
fn opposing_snake_segments_repel() {
    let me = snake("me", vec![coord(5, 5)]);
    let other = snake("other", vec![coord(8, 5)]);
    let b = board(11, 11, vec![], vec![me.clone(), other]);
    let moves = aggregate_scores(&b, &me.head);
    // Walls alone give (-5, -6, -6, -5); the segment three to the right
    // subtracts 11 - 3 = 8 more from Right.
    assert_eq!(moves, ScoreMap { up: -5, down: -6, left: -6, right: -13 });
}
