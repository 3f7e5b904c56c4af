use battlesnake_logic::logic::{end, get_info, get_move, hazard_filter, select_move, start, Candidates};
use battlesnake_logic::model::{Battlesnake, Board, Coord, Direction, Game};
use battlesnake_logic::scoring::ScoreMap;

fn coord(x: u32, y: u32) -> Coord {
    Coord { x, y }
}

fn snake(id: &str, body: Vec<Coord>) -> Battlesnake {
    Battlesnake { id: id.to_string(), head: body[0], body }
}

fn board(width: u32, height: u32, food: Vec<Coord>, snakes: Vec<Battlesnake>) -> Board {
    Board { width, height, food, snakes }
}

fn game(id: &str) -> Game {
    Game { id: id.to_string() }
}

#[test]
fn scenario_a_food_above_moves_up() {
    let me = snake("me", vec![coord(5, 5), coord(5, 5), coord(5, 5)]);
    let b = board(11, 11, vec![coord(5, 6)], vec![me.clone()]);
    assert_eq!(get_move(&game("g"), &0, &b, &me), Some(Direction::Up));
}

#[test]
fn scenario_b_left_wall_excluded() {
    let me = snake("me", vec![coord(0, 5)]);
    let b = board(11, 11, vec![], vec![me.clone()]);
    let safe = hazard_filter(&b, &me.head);
    assert!(!safe.left);
    assert_ne!(get_move(&game("g"), &0, &b, &me), Some(Direction::Left));
}

#[test]
fn scenario_c_fully_boxed_in_returns_fallback() {
    let me = snake("me", vec![coord(5, 5)]);
    let blocker = snake("other", vec![coord(4, 5), coord(6, 5), coord(5, 4), coord(5, 6)]);
    let b = board(11, 11, vec![], vec![me.clone(), blocker]);
    assert_eq!(get_move(&game("g"), &0, &b, &me), None);
}

#[test]
fn right_wall_excluded() {
    let me = snake("me", vec![coord(10, 5)]);
    let b = board(11, 11, vec![], vec![me.clone()]);
    let safe = hazard_filter(&b, &me.head);
    assert!(!safe.right);
    assert_ne!(get_move(&game("g"), &0, &b, &me), Some(Direction::Right));
}

#[test]
fn bottom_wall_excluded() {
    let me = snake("me", vec![coord(5, 0)]);
    let b = board(11, 11, vec![], vec![me.clone()]);
    let safe = hazard_filter(&b, &me.head);
    assert!(!safe.down);
    assert_ne!(get_move(&game("g"), &0, &b, &me), Some(Direction::Down));
}

#[test]
fn top_wall_excluded() {
    let me = snake("me", vec![coord(5, 10)]);
    let b = board(11, 11, vec![], vec![me.clone()]);
    let safe = hazard_filter(&b, &me.head);
    assert!(!safe.up);
    assert_ne!(get_move(&game("g"), &0, &b, &me), Some(Direction::Up));
}

#[test]
fn adjacent_segment_excludes_direction() {
    let me = snake("me", vec![coord(5, 5)]);
    let other = snake("other", vec![coord(6, 5)]);
    let b = board(11, 11, vec![], vec![me.clone(), other]);
    let safe = hazard_filter(&b, &me.head);
    assert!(!safe.right);
    assert!(safe.up);
    assert!(safe.down);
    assert!(safe.left);
    assert_ne!(get_move(&game("g"), &0, &b, &me), Some(Direction::Right));
}

#[test]
fn own_body_segment_excludes_direction() {
    let me = snake("me", vec![coord(5, 5), coord(5, 4)]);
    let b = board(11, 11, vec![], vec![me.clone()]);
    let safe = hazard_filter(&b, &me.head);
    assert!(!safe.down);
    assert_ne!(get_move(&game("g"), &0, &b, &me), Some(Direction::Down));
}

#[test]
fn one_by_one_board_is_total_entrapment() {
    let me = snake("me", vec![coord(0, 0)]);
    let b = board(1, 1, vec![], vec![me.clone()]);
    assert_eq!(get_move(&game("g"), &0, &b, &me), None);
}

#[test]
fn repeated_invocations_agree() {
    let me = snake("me", vec![coord(3, 7), coord(3, 6), coord(2, 6)]);
    let b = board(11, 11, vec![coord(9, 1), coord(0, 4)], vec![me.clone()]);
    let first = get_move(&game("g"), &4, &b, &me);
    let second = get_move(&game("g"), &4, &b, &me);
    let third = get_move(&game("g"), &4, &b, &me);
    assert_eq!(first, second);
    assert_eq!(second, third);
}

#[test]
fn selector_prefers_up_on_full_tie() {
    let moves = ScoreMap { up: 0, down: 0, left: 0, right: 0 };
    let safe = Candidates { up: true, down: true, left: true, right: true };
    assert_eq!(select_move(&moves, &safe), Some(Direction::Up));
}

#[test]
fn selector_tie_break_follows_priority() {
    let moves = ScoreMap { up: 0, down: 0, left: 0, right: 0 };
    let no_up = Candidates { up: false, down: true, left: true, right: true };
    assert_eq!(select_move(&moves, &no_up), Some(Direction::Right));
    let only_down_left = Candidates { up: false, down: true, left: true, right: false };
    assert_eq!(select_move(&moves, &only_down_left), Some(Direction::Down));
    let only_left = Candidates { up: false, down: false, left: true, right: false };
    assert_eq!(select_move(&moves, &only_left), Some(Direction::Left));
}

#[test]
fn selector_picks_maximum_score() {
    let moves = ScoreMap { up: 1, down: -3, left: 8, right: 5 };
    let safe = Candidates { up: true, down: true, left: true, right: true };
    assert_eq!(select_move(&moves, &safe), Some(Direction::Left));
}

#[test]
fn selector_ignores_blocked_maximum() {
    let moves = ScoreMap { up: 1, down: -3, left: 8, right: 5 };
    let safe = Candidates { up: true, down: true, left: false, right: true };
    assert_eq!(select_move(&moves, &safe), Some(Direction::Right));
}

#[test]
fn selector_with_nothing_allowed_returns_none() {
    let moves = ScoreMap { up: 7, down: 7, left: 7, right: 7 };
    let safe = Candidates { up: false, down: false, left: false, right: false };
    assert_eq!(select_move(&moves, &safe), None);
}

#[test]
fn info_record_is_fixed() {
    let info = get_info();
    assert_eq!(info.apiversion, "1");
    assert_eq!(info.author, "");
    assert_eq!(info.color, "#228866");
    assert_eq!(info.head, "trans-rights-scarf");
    assert_eq!(info.tail, "pixel");
}

#[test]
fn start_message_names_the_game() {
    let me = snake("me", vec![coord(5, 5)]);
    let b = board(11, 11, vec![], vec![me.clone()]);
    assert_eq!(start(&game("abc123"), &0, &b, &me), "abc123 START");
}

#[test]
fn end_message_names_the_game() {
    let me = snake("me", vec![coord(5, 5)]);
    let b = board(11, 11, vec![], vec![me.clone()]);
    assert_eq!(end(&game("abc123"), &7, &b, &me), "abc123 END");
}
