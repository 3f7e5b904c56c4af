//! Proved laws of the decision core: what the chosen move can never be,
//! when the fallback appears, and how food attraction orders the scores.

use vstd::prelude::*;

use crate::logic::{blocked, chosen_move, dir_priority, step_cell_x, step_cell_y};
use crate::model::{board_wf, in_board, snakes_seg_at, Battlesnake, Board, Coord, Direction};
use crate::scoring::{dir_delta, points_delta, snakes_delta, total_score, ScoreOp};

verus! {

/// Whatever direction the pipeline chooses survived the hazard filter.
pub proof fn lemma_chosen_is_candidate(board: Board, head: Coord)
    ensures
        chosen_move(board, head) matches Some(d) ==> !blocked(board, head, d),
{
}

/// Boundary exclusion: a head on a boundary never yields the move into
/// that boundary, whatever the scores say.
pub proof fn lemma_boundary_exclusion(board: Board, head: Coord)
    ensures
        head.x == 0 ==> chosen_move(board, head) != Some(Direction::Left),
        head.x == board.width - 1 ==> chosen_move(board, head) != Some(Direction::Right),
        head.y == 0 ==> chosen_move(board, head) != Some(Direction::Down),
        head.y == board.height - 1 ==> chosen_move(board, head) != Some(Direction::Up),
{
    lemma_chosen_is_candidate(board, head);
}

/// Collision exclusion: a body segment of any snake orthogonally adjacent
/// to the head removes that direction from the candidate set, so it is
/// never chosen, regardless of its score.
pub proof fn lemma_collision_exclusion(board: Board, head: Coord, d: Direction)
    requires
        snakes_seg_at(board.snakes@, step_cell_x(head, d), step_cell_y(head, d)),
    ensures
        blocked(board, head, d),
        chosen_move(board, head) != Some(d),
{
    lemma_chosen_is_candidate(board, head);
}

/// Total entrapment: the pipeline returns the fallback exactly when every
/// one of the four directions is immediately fatal.
pub proof fn lemma_total_entrapment(board: Board, head: Coord)
    ensures
        (chosen_move(board, head) is None) <==> (blocked(board, head, Direction::Up) && blocked(
            board,
            head,
            Direction::Down,
        ) && blocked(board, head, Direction::Left) && blocked(board, head, Direction::Right)),
{
}

/// The chosen direction's aggregated score is maximal among the directions
/// that survived the filter.
pub proof fn lemma_chosen_is_best(board: Board, head: Coord, c: Direction, other: Direction)
    requires
        chosen_move(board, head) == Some(c),
        !blocked(board, head, other),
    ensures
        total_score(board, head, other) <= total_score(board, head, c),
{
}

/// Ties are broken by the fixed priority: when another surviving
/// direction matches the chosen one's score, the chosen one comes earlier
/// in the order Up, Right, Down, Left.
pub proof fn lemma_tie_break_priority(board: Board, head: Coord, c: Direction, other: Direction)
    requires
        chosen_move(board, head) == Some(c),
        !blocked(board, head, other),
        total_score(board, head, other) == total_score(board, head, c),
        other != c,
    ensures
        dir_priority(c) < dir_priority(other),
{
}

/// In-board targets only ever lower a score under the penalty transform.
proof fn lemma_points_penalty_nonpos(source: Coord, pts: Seq<Coord>, width: int, height: int)
    requires
        in_board(source, width, height),
        forall|k: int| 0 <= k < pts.len() ==> in_board(#[trigger] pts[k], width, height),
    ensures
        forall|d: Direction| #[trigger]
            points_delta(ScoreOp::Penalty, source, pts, width, height, d) <= 0,
    decreases pts.len(),
{
    if pts.len() > 0 {
        lemma_points_penalty_nonpos(source, pts.drop_last(), width, height);
        assert(in_board(pts.last(), width, height));
        assert forall|d: Direction| #[trigger]
            points_delta(ScoreOp::Penalty, source, pts, width, height, d) <= 0 by {
            assert(points_delta(ScoreOp::Penalty, source, pts, width, height, d) == points_delta(
                ScoreOp::Penalty,
                source,
                pts.drop_last(),
                width,
                height,
                d,
            ) + dir_delta(ScoreOp::Penalty, source, pts.last(), width, height, d));
            assert(dir_delta(ScoreOp::Penalty, source, pts.last(), width, height, d) <= 0);
        }
    }
}

/// Targets that lie no higher than the source never touch Up's score under
/// the penalty transform.
proof fn lemma_points_penalty_no_up(source: Coord, pts: Seq<Coord>, width: int, height: int)
    requires
        forall|k: int| 0 <= k < pts.len() ==> #[trigger] pts[k].y <= source.y,
    ensures
        points_delta(ScoreOp::Penalty, source, pts, width, height, Direction::Up) == 0,
    decreases pts.len(),
{
    if pts.len() > 0 {
        lemma_points_penalty_no_up(source, pts.drop_last(), width, height);
    }
}

/// Attraction ordering: with exactly one food item directly above the
/// head, no snake on the board but the acting one, no boundary adjacency
/// on any side, and no body segment higher than the head, Up's aggregated
/// score is strictly the highest of the four before filtering.
pub proof fn lemma_attraction_ordering(board: Board, my: Battlesnake)
    requires
        board_wf(board),
        board.snakes@ == seq![my],
        board.food@.len() == 1,
        board.food@[0].x == my.head.x,
        board.food@[0].y == my.head.y + 1,
        1 <= my.head.x,
        my.head.x + 2 <= board.width,
        1 <= my.head.y,
        my.head.y + 2 <= board.height,
        forall|j: int| 0 <= j < my.body@.len() ==> #[trigger] my.body@[j].y <= my.head.y,
    ensures
        total_score(board, my.head, Direction::Down) < total_score(board, my.head, Direction::Up),
        total_score(board, my.head, Direction::Left) < total_score(board, my.head, Direction::Up),
        total_score(board, my.head, Direction::Right) < total_score(
            board,
            my.head,
            Direction::Up,
        ),
{
    let w = board.width as int;
    let h = board.height as int;
    let head = my.head;

    // The lone snake's contribution is its body's penalty contribution.
    assert(board.snakes@.drop_last() =~= Seq::<Battlesnake>::empty());
    assert(board.snakes@.last() == my);
    assert forall|d: Direction| #[trigger]
        snakes_delta(head, board.snakes@, w, h, d) == points_delta(
            ScoreOp::Penalty,
            head,
            my.body@,
            w,
            h,
            d,
        ) by {
        assert(snakes_delta(head, Seq::<Battlesnake>::empty(), w, h, d) == 0);
        assert(snakes_delta(head, board.snakes@, w, h, d) == snakes_delta(
            head,
            board.snakes@.drop_last(),
            w,
            h,
            d,
        ) + points_delta(ScoreOp::Penalty, head, board.snakes@.last().body@, w, h, d));
    }
    assert(board_wf(board) ==> in_board(head, w, h));
    assert(forall|k: int| 0 <= k < my.body@.len() ==> in_board(#[trigger] my.body@[k], w, h));
    lemma_points_penalty_nonpos(head, my.body@, w, h);
    lemma_points_penalty_no_up(head, my.body@, w, h);

    // The lone food item rewards Up with twice its closeness and leaves
    // the other directions untouched.
    assert(board.food@.drop_last() =~= Seq::<Coord>::empty());
    assert forall|d: Direction| #[trigger]
        points_delta(ScoreOp::Reward, head, board.food@, w, h, d) == dir_delta(
            ScoreOp::Reward,
            head,
            board.food@[0],
            w,
            h,
            d,
        ) by {
        assert(points_delta(ScoreOp::Reward, head, Seq::<Coord>::empty(), w, h, d) == 0);
        assert(points_delta(ScoreOp::Reward, head, board.food@, w, h, d) == points_delta(
            ScoreOp::Reward,
            head,
            board.food@.drop_last(),
            w,
            h,
            d,
        ) + dir_delta(ScoreOp::Reward, head, board.food@.last(), w, h, d));
        assert(board.food@.last() == board.food@[0]);
    }
}

} // verus!
