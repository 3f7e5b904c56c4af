//! Directional scorer and aggregator: every wall anchor, body segment and
//! food item adjusts a per-direction score table.

use vstd::prelude::*;

use crate::model::{Battlesnake, Board, Coord, Direction, MAX_DIM, MAX_POINTS};
use crate::model::{
    board_sized, board_wf, in_board, lemma_total_segments_nonneg, lemma_total_segments_take_le,
    lemma_total_segments_take_succ, snake_wf, total_segments,
};

verus! {

/// Weight of food attraction relative to hazard repulsion: a reward adds
/// the magnitude this many times where a penalty subtracts it once. The
/// doubling is a quirk of the heuristic; it is named here so the choice
/// stays visible and adjustable.
pub const REWARD_WEIGHT: i64 = 2;

/// Largest change a single scoring step can make to one direction's score;
/// correct for any `REWARD_WEIGHT` up to 2.
pub const STEP_BOUND: i64 = 0x8000_0000;

/// Largest accumulated score magnitude at which one more scoring step is
/// still accepted.
pub const SCORE_LIMIT: i64 = 0x4000_0000_0000_0000;

/// The two scoring transforms: a reward adds `REWARD_WEIGHT` times the
/// magnitude (food attraction is weighted double), a penalty subtracts it
/// once.
#[derive(Clone, Copy, Debug, PartialEq, Eq, Structural)]
pub enum ScoreOp {
    Reward,
    Penalty,
}

/// One signed score per direction, always fully populated; all four start
/// at zero.
#[derive(Clone, Copy, Debug, PartialEq, Eq, Structural)]
pub struct ScoreMap {
    pub up: i64,
    pub down: i64,
    pub left: i64,
    pub right: i64,
}

impl ScoreMap {
    /// The score this table holds for direction `d`.
    pub open spec fn get(self, d: Direction) -> int {
        match d {
            Direction::Up => self.up as int,
            Direction::Down => self.down as int,
            Direction::Left => self.left as int,
            Direction::Right => self.right as int,
        }
    }

    /// A fresh table with all four directions at zero.
    pub fn new() -> (r: ScoreMap)
        ensures
            forall|d: Direction| #[trigger] r.get(d) == 0,
    {
        ScoreMap { up: 0, down: 0, left: 0, right: 0 }
    }

    /// The score for direction `d`, as the executable counterpart of `get`.
    pub fn score_of(&self, d: Direction) -> (r: i64)
        ensures
            r as int == self.get(d),
    {
        match d {
            Direction::Up => self.up,
            Direction::Down => self.down,
            Direction::Left => self.left,
            Direction::Right => self.right,
        }
    }
}

/// What one transform application adds to a score: `REWARD_WEIGHT` times
/// the magnitude for a reward, minus the magnitude for a penalty.
pub open spec fn op_delta(op: ScoreOp, magnitude: int) -> int {
    match op {
        ScoreOp::Reward => REWARD_WEIGHT * magnitude,
        ScoreOp::Penalty => -magnitude,
    }
}

/// The change one target contributes to direction `d`'s score, for a head
/// at `source` on a `width` by `height` board: along each axis the target
/// affects the direction it lies toward, with magnitude
/// `dimension - |delta|` on that axis. The magnitude grows as the target
/// nears the source along that axis, yet it also stays well above zero for
/// a distant target near the opposite wall even though the board is not
/// toroidal — an ambiguity of the heuristic that is documented rather than
/// silently repaired.
pub open spec fn dir_delta(
    op: ScoreOp,
    source: Coord,
    target: Coord,
    width: int,
    height: int,
    d: Direction,
) -> int {
    match d {
        Direction::Left => if target.x < source.x {
            op_delta(op, width - (source.x - target.x))
        } else {
            0
        },
        Direction::Right => if target.x > source.x {
            op_delta(op, width - (target.x - source.x))
        } else {
            0
        },
        Direction::Down => if target.y < source.y {
            op_delta(op, height - (source.y - target.y))
        } else {
            0
        },
        Direction::Up => if target.y > source.y {
            op_delta(op, height - (target.y - source.y))
        } else {
            0
        },
    }
}

/// The change a whole sequence of targets contributes to direction `d`'s
/// score, one `dir_delta` per target.
pub open spec fn points_delta(
    op: ScoreOp,
    source: Coord,
    pts: Seq<Coord>,
    width: int,
    height: int,
    d: Direction,
) -> int
    decreases pts.len(),
{
    if pts.len() == 0 {
        0
    } else {
        points_delta(op, source, pts.drop_last(), width, height, d)
            + dir_delta(op, source, pts.last(), width, height, d)
    }
}

/// The penalty every body segment of every snake contributes to direction
/// `d`'s score.
pub open spec fn snakes_delta(
    source: Coord,
    snakes: Seq<Battlesnake>,
    width: int,
    height: int,
    d: Direction,
) -> int
    decreases snakes.len(),
{
    if snakes.len() == 0 {
        0
    } else {
        snakes_delta(source, snakes.drop_last(), width, height, d)
            + points_delta(ScoreOp::Penalty, source, snakes.last().body@, width, height, d)
    }
}

/// The penalty the four wall anchor points contribute to direction `d`'s
/// score. The anchors project the head onto each boundary: the near edges
/// at x = 0 and y = 0, and one cell past the far edges, at x = width and
/// y = height — a deliberate asymmetry of the heuristic.
pub open spec fn wall_delta(board: Board, source: Coord, d: Direction) -> int {
    let w = board.width as int;
    let h = board.height as int;
    dir_delta(ScoreOp::Penalty, source, Coord { x: 0, y: source.y }, w, h, d) + dir_delta(
        ScoreOp::Penalty,
        source,
        Coord { x: board.width, y: source.y },
        w,
        h,
        d,
    ) + dir_delta(ScoreOp::Penalty, source, Coord { x: source.x, y: 0 }, w, h, d) + dir_delta(
        ScoreOp::Penalty,
        source,
        Coord { x: source.x, y: board.height },
        w,
        h,
        d,
    )
}

/// Direction `d`'s fully aggregated score before filtering: wall repulsion,
/// repulsion from every body segment of every snake, and attraction to
/// every food item.
pub open spec fn total_score(board: Board, source: Coord, d: Direction) -> int {
    wall_delta(board, source, d) + snakes_delta(
        source,
        board.snakes@,
        board.width as int,
        board.height as int,
        d,
    ) + points_delta(
        ScoreOp::Reward,
        source,
        board.food@,
        board.width as int,
        board.height as int,
        d,
    )
}

/// The per-axis deltas from `source` to `target`: positive when the target
/// lies to the right of, respectively above, the source.
pub fn scores(source: &Coord, target: &Coord) -> (r: (i32, i32))
    requires
        source.x <= i32::MAX,
        source.y <= i32::MAX,
        target.x <= i32::MAX,
        target.y <= i32::MAX,
    ensures
        r.0 == target.x - source.x,
        r.1 == target.y - source.y,
{
    let x_score = target.x as i32 - source.x as i32;
    let y_score = target.y as i32 - source.y as i32;
    (x_score, y_score)
}

/// Applies the transform to one direction's score.
fn apply_op(score: i64, magnitude: i64, score_operation: ScoreOp) -> (r: i64)
    requires
        -SCORE_LIMIT <= score <= SCORE_LIMIT,
        -STEP_BOUND <= op_delta(score_operation, magnitude as int) <= STEP_BOUND,
    ensures
        r as int == score + op_delta(score_operation, magnitude as int),
{
    match score_operation {
        ScoreOp::Reward => score + REWARD_WEIGHT * magnitude,
        ScoreOp::Penalty => score - magnitude,
    }
}

/// One scoring step changes a score by at most `STEP_BOUND` either way.
pub proof fn lemma_dir_delta_bound(op: ScoreOp, source: Coord, target: Coord, width: int, height: int)
    requires
        source.x <= MAX_DIM,
        source.y <= MAX_DIM,
        target.x <= MAX_DIM,
        target.y <= MAX_DIM,
        0 <= width <= MAX_DIM,
        0 <= height <= MAX_DIM,
    ensures
        forall|d: Direction|
            -STEP_BOUND <= #[trigger] dir_delta(op, source, target, width, height, d)
                <= STEP_BOUND,
{
}

/// A sequence of in-board targets changes a score by at most `STEP_BOUND`
/// per target.
pub proof fn lemma_points_delta_bound(
    op: ScoreOp,
    source: Coord,
    pts: Seq<Coord>,
    width: int,
    height: int,
)
    requires
        source.x <= MAX_DIM,
        source.y <= MAX_DIM,
        0 <= width <= MAX_DIM,
        0 <= height <= MAX_DIM,
        forall|k: int| 0 <= k < pts.len() ==> in_board(#[trigger] pts[k], width, height),
    ensures
        forall|d: Direction|
            -(pts.len() * STEP_BOUND) <= #[trigger] points_delta(op, source, pts, width, height, d)
                <= pts.len() * STEP_BOUND,
    decreases pts.len(),
{
    if pts.len() > 0 {
        lemma_points_delta_bound(op, source, pts.drop_last(), width, height);
        lemma_dir_delta_bound(op, source, pts.last(), width, height);
        assert(pts.drop_last().len() == pts.len() - 1);
        assert forall|d: Direction|
            -(pts.len() * STEP_BOUND) <= #[trigger] points_delta(op, source, pts, width, height, d)
                <= pts.len() * STEP_BOUND by {
            assert(points_delta(op, source, pts, width, height, d) == points_delta(
                op,
                source,
                pts.drop_last(),
                width,
                height,
                d,
            ) + dir_delta(op, source, pts.last(), width, height, d));
            assert(-((pts.len() - 1) * STEP_BOUND) <= points_delta(
                op,
                source,
                pts.drop_last(),
                width,
                height,
                d,
            ) <= (pts.len() - 1) * STEP_BOUND);
            assert((pts.len() - 1) * STEP_BOUND + STEP_BOUND == pts.len() * STEP_BOUND)
                by (nonlinear_arith);
        }
    }
}

/// Well-formed snakes change a score by at most `STEP_BOUND` per body
/// segment.
pub proof fn lemma_snakes_delta_bound(
    source: Coord,
    snakes: Seq<Battlesnake>,
    width: int,
    height: int,
)
    requires
        source.x <= MAX_DIM,
        source.y <= MAX_DIM,
        0 <= width <= MAX_DIM,
        0 <= height <= MAX_DIM,
        forall|a: int| 0 <= a < snakes.len() ==> snake_wf(#[trigger] snakes[a], width, height),
    ensures
        forall|d: Direction|
            -(total_segments(snakes) * STEP_BOUND) <= #[trigger] snakes_delta(
                source,
                snakes,
                width,
                height,
                d,
            ) <= total_segments(snakes) * STEP_BOUND,
    decreases snakes.len(),
{
    lemma_total_segments_nonneg(snakes);
    if snakes.len() > 0 {
        lemma_snakes_delta_bound(source, snakes.drop_last(), width, height);
        lemma_points_delta_bound(
            ScoreOp::Penalty,
            source,
            snakes.last().body@,
            width,
            height,
        );
        assert forall|d: Direction|
            -(total_segments(snakes) * STEP_BOUND) <= #[trigger] snakes_delta(
                source,
                snakes,
                width,
                height,
                d,
            ) <= total_segments(snakes) * STEP_BOUND by {
            assert(snakes_delta(source, snakes, width, height, d) == snakes_delta(
                source,
                snakes.drop_last(),
                width,
                height,
                d,
            ) + points_delta(ScoreOp::Penalty, source, snakes.last().body@, width, height, d));
            assert(total_segments(snakes) == total_segments(snakes.drop_last())
                + snakes.last().body@.len());
            assert(total_segments(snakes.drop_last()) * STEP_BOUND + snakes.last().body@.len()
                * STEP_BOUND == (total_segments(snakes.drop_last())
                + snakes.last().body@.len()) * STEP_BOUND) by (nonlinear_arith);
        }
    }
}

/// Applies the transform against one target: for each axis on which the
/// target is offset from the source, the direction pointing toward it gets
/// the transform at magnitude `dimension - |delta|`.
pub fn determine_score_directions(
    source: &Coord,
    target: &Coord,
    board: &Board,
    moves: &mut ScoreMap,
    score_operation: ScoreOp,
)
    requires
        source.x <= MAX_DIM,
        source.y <= MAX_DIM,
        target.x <= MAX_DIM,
        target.y <= MAX_DIM,
        board.width <= MAX_DIM,
        board.height <= MAX_DIM,
        forall|d: Direction| -SCORE_LIMIT <= #[trigger] old(moves).get(d) <= SCORE_LIMIT,
    ensures
        forall|d: Direction| #[trigger]
            final(moves).get(d) == old(moves).get(d) + dir_delta(
                score_operation,
                *source,
                *target,
                board.width as int,
                board.height as int,
                d,
            ),
{
    proof {
        assert(-SCORE_LIMIT <= old(moves).get(Direction::Up) <= SCORE_LIMIT);
        assert(-SCORE_LIMIT <= old(moves).get(Direction::Down) <= SCORE_LIMIT);
        assert(-SCORE_LIMIT <= old(moves).get(Direction::Left) <= SCORE_LIMIT);
        assert(-SCORE_LIMIT <= old(moves).get(Direction::Right) <= SCORE_LIMIT);
    }
    let (x_score, y_score) = scores(source, target);
    let w = board.width as i64;
    let h = board.height as i64;

    if x_score < 0 {
        let magnitude = w - (-(x_score as i64));
        moves.left = apply_op(moves.left, magnitude, score_operation);
    }
    if x_score > 0 {
        let magnitude = w - (x_score as i64);
        moves.right = apply_op(moves.right, magnitude, score_operation);
    }
    if y_score < 0 {
        let magnitude = h - (-(y_score as i64));
        moves.down = apply_op(moves.down, magnitude, score_operation);
    }
    if y_score > 0 {
        let magnitude = h - (y_score as i64);
        moves.up = apply_op(moves.up, magnitude, score_operation);
    }
}

/// Aggregates the full score table for a head at `head`: penalties for the
/// four wall anchors and for every body segment of every snake, rewards for
/// every food item.
pub fn aggregate_scores(board: &Board, head: &Coord) -> (moves: ScoreMap)
    requires
        board_wf(*board),
        board_sized(*board),
        in_board(*head, board.width as int, board.height as int),
    ensures
        forall|d: Direction| #[trigger] moves.get(d) == total_score(*board, *head, d),
{
    let ghost w = board.width as int;
    let ghost h = board.height as int;
    let mut moves = ScoreMap::new();

    // Wall repulsion: the head's projection onto each boundary edge.
    proof {
        lemma_dir_delta_bound(ScoreOp::Penalty, *head, Coord { x: 0, y: head.y }, w, h);
        lemma_dir_delta_bound(ScoreOp::Penalty, *head, Coord { x: board.width, y: head.y }, w, h);
        lemma_dir_delta_bound(ScoreOp::Penalty, *head, Coord { x: head.x, y: 0 }, w, h);
        lemma_dir_delta_bound(ScoreOp::Penalty, *head, Coord { x: head.x, y: board.height }, w, h);
    }
    determine_score_directions(
        head,
        &Coord { x: 0, y: head.y },
        board,
        &mut moves,
        ScoreOp::Penalty,
    );
    determine_score_directions(
        head,
        &Coord { x: board.width, y: head.y },
        board,
        &mut moves,
        ScoreOp::Penalty,
    );
    determine_score_directions(
        head,
        &Coord { x: head.x, y: 0 },
        board,
        &mut moves,
        ScoreOp::Penalty,
    );
    determine_score_directions(
        head,
        &Coord { x: head.x, y: board.height },
        board,
        &mut moves,
        ScoreOp::Penalty,
    );
    let ghost walls = moves;
    proof {
        assert(forall|d: Direction| #[trigger] walls.get(d) == wall_delta(*board, *head, d));
        lemma_total_segments_nonneg(board.snakes@);
    }

    // Repulsion from every body segment of every snake.
    let mut i: usize = 0;
    while i < board.snakes.len()
        invariant
            board_wf(*board),
            board_sized(*board),
            in_board(*head, board.width as int, board.height as int),
            w == board.width as int,
            h == board.height as int,
            i <= board.snakes@.len(),
            forall|d: Direction|
                -4 * STEP_BOUND <= #[trigger] walls.get(d) <= 4 * STEP_BOUND,
            forall|d: Direction| #[trigger]
                moves.get(d) == walls.get(d) + snakes_delta(
                    *head,
                    board.snakes@.take(i as int),
                    w,
                    h,
                    d,
                ),
        decreases board.snakes@.len() - i,
    {
        let mut j: usize = 0;
        proof {
            lemma_total_segments_take_succ(board.snakes@, i as int);
            lemma_total_segments_take_le(board.snakes@, i as int + 1);
            lemma_total_segments_nonneg(board.snakes@.take(i as int));
        }
        while j < board.snakes[i].body.len()
            invariant
                board_wf(*board),
                board_sized(*board),
                in_board(*head, board.width as int, board.height as int),
                w == board.width as int,
                h == board.height as int,
                i < board.snakes@.len(),
                j <= board.snakes@[i as int].body@.len(),
                forall|d: Direction|
                    -4 * STEP_BOUND <= #[trigger] walls.get(d) <= 4 * STEP_BOUND,
                forall|d: Direction| #[trigger]
                    moves.get(d) == walls.get(d) + snakes_delta(
                        *head,
                        board.snakes@.take(i as int),
                        w,
                        h,
                        d,
                    ) + points_delta(
                        ScoreOp::Penalty,
                        *head,
                        board.snakes@[i as int].body@.take(j as int),
                        w,
                        h,
                        d,
                    ),
            decreases board.snakes@[i as int].body@.len() - j,
        {
            proof {
                lemma_snakes_delta_bound(*head, board.snakes@.take(i as int), w, h);
                lemma_points_delta_bound(
                    ScoreOp::Penalty,
                    *head,
                    board.snakes@[i as int].body@.take(j as int),
                    w,
                    h,
                );
                lemma_total_segments_take_succ(board.snakes@, i as int);
                lemma_total_segments_take_le(board.snakes@, i as int + 1);
                lemma_total_segments_nonneg(board.snakes@.take(i as int));
            }
            determine_score_directions(
                head,
                &board.snakes[i].body[j],
                board,
                &mut moves,
                ScoreOp::Penalty,
            );
            proof {
                assert(board.snakes@[i as int].body@.take(j as int + 1).drop_last()
                    =~= board.snakes@[i as int].body@.take(j as int));
            }
            j += 1;
        }
        proof {
            assert(board.snakes@[i as int].body@.take(board.snakes@[i as int].body@.len() as int)
                =~= board.snakes@[i as int].body@);
            assert(board.snakes@.take(i as int + 1).drop_last() =~= board.snakes@.take(i as int));
        }
        i += 1;
    }
    proof {
        assert(board.snakes@.take(board.snakes@.len() as int) =~= board.snakes@);
    }
    let ghost with_snakes = moves;
    proof {
        lemma_snakes_delta_bound(*head, board.snakes@, w, h);
        lemma_total_segments_nonneg(board.snakes@);
    }

    // Attraction toward every food item.
    let mut k: usize = 0;
    while k < board.food.len()
        invariant
            board_wf(*board),
            board_sized(*board),
            in_board(*head, board.width as int, board.height as int),
            w == board.width as int,
            h == board.height as int,
            k <= board.food@.len(),
            forall|d: Direction|
                -(4 + total_segments(board.snakes@)) * STEP_BOUND <= #[trigger] with_snakes.get(d)
                    <= (4 + total_segments(board.snakes@)) * STEP_BOUND,
            forall|d: Direction| #[trigger]
                with_snakes.get(d) == wall_delta(*board, *head, d) + snakes_delta(
                    *head,
                    board.snakes@,
                    w,
                    h,
                    d,
                ),
            forall|d: Direction| #[trigger]
                moves.get(d) == with_snakes.get(d) + points_delta(
                    ScoreOp::Reward,
                    *head,
                    board.food@.take(k as int),
                    w,
                    h,
                    d,
                ),
        decreases board.food@.len() - k,
    {
        proof {
            lemma_total_segments_nonneg(board.snakes@);
            lemma_points_delta_bound(
                ScoreOp::Reward,
                *head,
                board.food@.take(k as int),
                w,
                h,
            );
        }
        determine_score_directions(
            head,
            &board.food[k],
            board,
            &mut moves,
            ScoreOp::Reward,
        );
        proof {
            assert(board.food@.take(k as int + 1).drop_last() =~= board.food@.take(k as int));
        }
        k += 1;
    }
    proof {
        assert(board.food@.take(board.food@.len() as int) =~= board.food@);
    }
    moves
}

} // verus!
