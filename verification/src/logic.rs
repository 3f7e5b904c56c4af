//! Hazard filter, selector, and the per-tick entry points.

use vstd::prelude::*;
use vstd::string::StringExecFns;

use crate::model::{Battlesnake, Board, Coord, Direction, Game, Info};
use crate::model::{
    board_sized, board_wf, in_board, lemma_seg_at_in_step, lemma_snakes_seg_at_step, seg_at_in,
    snakes_seg_at,
};
use crate::scoring::{aggregate_scores, total_score, ScoreMap};

verus! {

/// The x coordinate of the cell one step from `head` in direction `d`.
pub open spec fn step_cell_x(head: Coord, d: Direction) -> int {
    match d {
        Direction::Left => head.x - 1,
        Direction::Right => head.x + 1,
        _ => head.x as int,
    }
}

/// The y coordinate of the cell one step from `head` in direction `d`.
pub open spec fn step_cell_y(head: Coord, d: Direction) -> int {
    match d {
        Direction::Down => head.y - 1,
        Direction::Up => head.y + 1,
        _ => head.y as int,
    }
}

/// Stepping in direction `d` leaves the board.
pub open spec fn wall_hit(board: Board, head: Coord, d: Direction) -> bool {
    match d {
        Direction::Left => head.x == 0,
        Direction::Right => head.x == board.width - 1,
        Direction::Down => head.y == 0,
        Direction::Up => head.y == board.height - 1,
    }
}

/// Stepping in direction `d` is immediately fatal: the next cell is off the
/// board or holds a body segment of some snake.
pub open spec fn blocked(board: Board, head: Coord, d: Direction) -> bool {
    wall_hit(board, head, d) || snakes_seg_at(
        board.snakes@,
        step_cell_x(head, d),
        step_cell_y(head, d),
    )
}

/// The directions that survive the hazard filter, one flag per direction.
#[derive(Clone, Copy, Debug, PartialEq, Eq, Structural)]
pub struct Candidates {
    pub up: bool,
    pub down: bool,
    pub left: bool,
    pub right: bool,
}

impl Candidates {
    /// Whether direction `d` survived the filter.
    pub open spec fn allowed(self, d: Direction) -> bool {
        match d {
            Direction::Up => self.up,
            Direction::Down => self.down,
            Direction::Left => self.left,
            Direction::Right => self.right,
        }
    }

    /// Whether direction `d` survived the filter, as the executable
    /// counterpart of `allowed`.
    pub fn is_allowed(&self, d: Direction) -> (r: bool)
        ensures
            r == self.allowed(d),
    {
        match d {
            Direction::Up => self.up,
            Direction::Down => self.down,
            Direction::Left => self.left,
            Direction::Right => self.right,
        }
    }
}

/// The hazard seen for direction `d` after scanning every segment of the
/// first `i` snakes and the first `j` segments of snake `i`.
pub open spec fn prefix_blocked(board: Board, head: Coord, i: int, j: int, d: Direction) -> bool {
    wall_hit(board, head, d) || snakes_seg_at(
        board.snakes@.take(i),
        step_cell_x(head, d),
        step_cell_y(head, d),
    ) || (i < board.snakes@.len() && seg_at_in(
        board.snakes@[i].body@.take(j),
        step_cell_x(head, d),
        step_cell_y(head, d),
    ))
}

/// Removes every direction whose next cell is a boundary or an occupied
/// cell, regardless of its score.
pub fn hazard_filter(board: &Board, head: &Coord) -> (safe: Candidates)
    requires
        board_wf(*board),
        in_board(*head, board.width as int, board.height as int),
    ensures
        forall|d: Direction| #[trigger] safe.allowed(d) == !blocked(*board, *head, d),
{
    let mut safe = Candidates {
        up: head.y != board.height - 1,
        down: head.y != 0,
        left: head.x != 0,
        right: head.x != board.width - 1,
    };

    let mut i: usize = 0;
    while i < board.snakes.len()
        invariant
            board_wf(*board),
            in_board(*head, board.width as int, board.height as int),
            i <= board.snakes@.len(),
            forall|d: Direction| #[trigger]
                safe.allowed(d) == !prefix_blocked(*board, *head, i as int, 0, d),
        decreases board.snakes@.len() - i,
    {
        let mut j: usize = 0;
        while j < board.snakes[i].body.len()
            invariant
                board_wf(*board),
                in_board(*head, board.width as int, board.height as int),
                i < board.snakes@.len(),
                j <= board.snakes@[i as int].body@.len(),
                forall|d: Direction| #[trigger]
                    safe.allowed(d) == !prefix_blocked(*board, *head, i as int, j as int, d),
            decreases board.snakes@[i as int].body@.len() - j,
        {
            let ghost safe0 = safe;
            let point = &board.snakes[i].body[j];
            let (x, y) = crate::scoring::scores(head, point);
            if x == 1 && y == 0 {
                safe.right = false;
            }
            if x == -1 && y == 0 {
                safe.left = false;
            }
            if y == 1 && x == 0 {
                safe.up = false;
            }
            if y == -1 && x == 0 {
                safe.down = false;
            }
            proof {
                lemma_seg_at_in_step(
                    board.snakes@[i as int].body@,
                    j as int,
                    step_cell_x(*head, Direction::Up),
                    step_cell_y(*head, Direction::Up),
                );
                lemma_seg_at_in_step(
                    board.snakes@[i as int].body@,
                    j as int,
                    step_cell_x(*head, Direction::Down),
                    step_cell_y(*head, Direction::Down),
                );
                lemma_seg_at_in_step(
                    board.snakes@[i as int].body@,
                    j as int,
                    step_cell_x(*head, Direction::Left),
                    step_cell_y(*head, Direction::Left),
                );
                lemma_seg_at_in_step(
                    board.snakes@[i as int].body@,
                    j as int,
                    step_cell_x(*head, Direction::Right),
                    step_cell_y(*head, Direction::Right),
                );
                assert(safe0.allowed(Direction::Up) == !prefix_blocked(
                    *board,
                    *head,
                    i as int,
                    j as int,
                    Direction::Up,
                ));
                assert(safe0.allowed(Direction::Down) == !prefix_blocked(
                    *board,
                    *head,
                    i as int,
                    j as int,
                    Direction::Down,
                ));
                assert(safe0.allowed(Direction::Left) == !prefix_blocked(
                    *board,
                    *head,
                    i as int,
                    j as int,
                    Direction::Left,
                ));
                assert(safe0.allowed(Direction::Right) == !prefix_blocked(
                    *board,
                    *head,
                    i as int,
                    j as int,
                    Direction::Right,
                ));
                assert(safe.allowed(Direction::Up) == !prefix_blocked(
                    *board,
                    *head,
                    i as int,
                    j as int + 1,
                    Direction::Up,
                ));
                assert(safe.allowed(Direction::Down) == !prefix_blocked(
                    *board,
                    *head,
                    i as int,
                    j as int + 1,
                    Direction::Down,
                ));
                assert(safe.allowed(Direction::Left) == !prefix_blocked(
                    *board,
                    *head,
                    i as int,
                    j as int + 1,
                    Direction::Left,
                ));
                assert(safe.allowed(Direction::Right) == !prefix_blocked(
                    *board,
                    *head,
                    i as int,
                    j as int + 1,
                    Direction::Right,
                ));
            }
            j += 1;
        }
        proof {
            assert(board.snakes@[i as int].body@.take(board.snakes@[i as int].body@.len() as int)
                =~= board.snakes@[i as int].body@);
            lemma_snakes_seg_at_step(
                board.snakes@,
                i as int,
                step_cell_x(*head, Direction::Up),
                step_cell_y(*head, Direction::Up),
            );
            lemma_snakes_seg_at_step(
                board.snakes@,
                i as int,
                step_cell_x(*head, Direction::Down),
                step_cell_y(*head, Direction::Down),
            );
            lemma_snakes_seg_at_step(
                board.snakes@,
                i as int,
                step_cell_x(*head, Direction::Left),
                step_cell_y(*head, Direction::Left),
            );
            lemma_snakes_seg_at_step(
                board.snakes@,
                i as int,
                step_cell_x(*head, Direction::Right),
                step_cell_y(*head, Direction::Right),
            );
        }
        i += 1;
    }
    proof {
        assert(board.snakes@.take(board.snakes@.len() as int) =~= board.snakes@);
    }
    safe
}

/// One selection step: the next direction in priority order replaces the
/// best so far only when it survived the filter and strictly beats it.
pub open spec fn sel_step(
    moves: ScoreMap,
    safe: Candidates,
    best: Option<Direction>,
    d: Direction,
) -> Option<Direction> {
    match best {
        Option::None => if safe.allowed(d) {
            Option::Some(d)
        } else {
            Option::None
        },
        Option::Some(b) => if safe.allowed(d) && moves.get(d) > moves.get(b) {
            Option::Some(d)
        } else {
            Option::Some(b)
        },
    }
}

/// The direction the selector picks from a score table and a candidate
/// set: the surviving direction with the highest score, ties broken by the
/// fixed priority Up, Right, Down, Left; `None` when nothing survived.
pub open spec fn selected(moves: ScoreMap, safe: Candidates) -> Option<Direction> {
    sel_step(
        moves,
        safe,
        sel_step(
            moves,
            safe,
            sel_step(moves, safe, sel_step(moves, safe, Option::None, Direction::Up), Direction::Right),
            Direction::Down,
        ),
        Direction::Left,
    )
}

/// One selection step over the board model, mirroring `sel_step` with the
/// aggregated scores and the hazard filter's verdicts.
pub open spec fn move_step(
    board: Board,
    head: Coord,
    best: Option<Direction>,
    d: Direction,
) -> Option<Direction> {
    match best {
        Option::None => if !blocked(board, head, d) {
            Option::Some(d)
        } else {
            Option::None
        },
        Option::Some(b) => if !blocked(board, head, d) && total_score(board, head, d)
            > total_score(board, head, b) {
            Option::Some(d)
        } else {
            Option::Some(b)
        },
    }
}

/// The move the whole pipeline chooses for a head at `head`: aggregate the
/// scores, drop the blocked directions, and pick the survivor with the
/// highest score, ties broken by the fixed priority Up, Right, Down, Left.
/// `None` is the fallback: no direction survived, loss is imminent.
pub open spec fn chosen_move(board: Board, head: Coord) -> Option<Direction> {
    move_step(
        board,
        head,
        move_step(
            board,
            head,
            move_step(
                board,
                head,
                move_step(board, head, Option::None, Direction::Up),
                Direction::Right,
            ),
            Direction::Down,
        ),
        Direction::Left,
    )
}

/// One executable selection step, as the counterpart of `sel_step`.
fn consider(moves: &ScoreMap, safe: &Candidates, best: Option<Direction>, d: Direction) -> (r:
    Option<Direction>)
    ensures
        r == sel_step(*moves, *safe, best, d),
{
    match best {
        Option::None => if safe.is_allowed(d) {
            Option::Some(d)
        } else {
            Option::None
        },
        Option::Some(b) => if safe.is_allowed(d) && moves.score_of(d) > moves.score_of(b) {
            Option::Some(d)
        } else {
            Option::Some(b)
        },
    }
}

/// Picks the surviving direction with the maximum score, ties broken by
/// the fixed priority Up, Right, Down, Left; returns `None` when every
/// direction was removed.
pub fn select_move(moves: &ScoreMap, safe: &Candidates) -> (r: Option<Direction>)
    ensures
        r == selected(*moves, *safe),
{
    let mut best: Option<Direction> = Option::None;
    best = consider(moves, safe, best, Direction::Up);
    best = consider(moves, safe, best, Direction::Right);
    best = consider(moves, safe, best, Direction::Down);
    best = consider(moves, safe, best, Direction::Left);
    best
}

/// Chooses this tick's move: scores every direction, removes the
/// immediately fatal ones, and returns the best survivor, or `None` as the
/// fallback when the snake is fully boxed in.
pub fn get_move(_game: &Game, _turn: &u32, board: &Board, my: &Battlesnake) -> (r: Option<
    Direction,
>)
    requires
        board_wf(*board),
        board_sized(*board),
        in_board(my.head, board.width as int, board.height as int),
    ensures
        r == chosen_move(*board, my.head),
{
    let moves = aggregate_scores(board, &my.head);
    let safe = hazard_filter(board, &my.head);
    select_move(&moves, &safe)
}

/// Builds the log line that announces a game's start.
pub fn start(game: &Game, _turn: &u32, _board: &Board, _you: &Battlesnake) -> (msg: String)
    ensures
        msg@ == game.id@ + " START"@,
{
    game.id.clone().concat(" START")
}

/// Builds the log line that announces a game's end.
pub fn end(game: &Game, _turn: &u32, _board: &Board, _you: &Battlesnake) -> (msg: String)
    ensures
        msg@ == game.id@ + " END"@,
{
    game.id.clone().concat(" END")
}

/// The fixed personalization record: api version, author, and the snake's
/// cosmetic appearance.
pub fn get_info() -> (info: Info)
    ensures
        info.apiversion@ == "1"@,
        info.author@ == ""@,
        info.color@ == "#228866"@,
        info.head@ == "trans-rights-scarf"@,
        info.tail@ == "pixel"@,
{
    Info {
        apiversion: "1".to_owned(),
        author: "".to_owned(),
        color: "#228866".to_owned(),
        head: "trans-rights-scarf".to_owned(),
        tail: "pixel".to_owned(),
    }
}

/// The fixed tie-break priority of a direction: lower comes first, in the
/// order Up, Right, Down, Left.
pub open spec fn dir_priority(d: Direction) -> int {
    match d {
        Direction::Up => 0,
        Direction::Right => 1,
        Direction::Down => 2,
        Direction::Left => 3,
    }
}

} // verus!
