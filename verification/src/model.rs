//! Board-model data types and their well-formedness predicates.

use vstd::prelude::*;

verus! {

/// Largest board dimension the scoring arithmetic accepts; every coordinate a
/// well-formed board refers to is then at most this large, which keeps every
/// single score adjustment within `i64` range.
pub const MAX_DIM: u32 = 0x4000_0000;

/// Largest number of scored points (body segments plus food items) the
/// aggregation accepts; together with `MAX_DIM` it keeps the accumulated
/// per-direction scores within `i64` range.
pub const MAX_POINTS: u64 = 0x7FFF_F000;

/// A grid position, 0-indexed with the origin at the bottom-left corner.
#[derive(Clone, Copy, Debug, PartialEq, Eq, Structural)]
pub struct Coord {
    pub x: u32,
    pub y: u32,
}

/// One snake on the board: an identifier, its head, and its body segments
/// in head-first order (the first body segment is the head itself).
#[derive(Clone, Debug)]
pub struct Battlesnake {
    pub id: String,
    pub head: Coord,
    pub body: Vec<Coord>,
}

/// One tick's board: grid size, food locations, and every snake present.
#[derive(Clone, Debug)]
pub struct Board {
    pub width: u32,
    pub height: u32,
    pub food: Vec<Coord>,
    pub snakes: Vec<Battlesnake>,
}

/// The surrounding game, of which only the identifier is ever read.
#[derive(Clone, Debug)]
pub struct Game {
    pub id: String,
}

/// The four possible moves; no diagonal or "stay" move exists.
#[derive(Clone, Copy, Debug, PartialEq, Eq, Structural)]
pub enum Direction {
    Up,
    Down,
    Left,
    Right,
}

/// The fixed personalization record returned for an info query.
#[derive(Clone, Debug)]
pub struct Info {
    pub apiversion: String,
    pub author: String,
    pub color: String,
    pub head: String,
    pub tail: String,
}

/// The coordinate lies on a `width` by `height` board.
pub open spec fn in_board(c: Coord, width: int, height: int) -> bool {
    c.x < width && c.y < height
}

/// The snake's body is non-empty, starts at its head, and lies on the board.
pub open spec fn snake_wf(s: Battlesnake, width: int, height: int) -> bool {
    &&& s.body@.len() > 0
    &&& s.body@[0] == s.head
    &&& in_board(s.head, width, height)
    &&& forall|j: int| 0 <= j < s.body@.len() ==> in_board(#[trigger] s.body@[j], width, height)
}

/// The board has positive dimensions within range, and every coordinate it
/// refers to lies on it.
pub open spec fn board_wf(b: Board) -> bool {
    &&& 1 <= b.width <= MAX_DIM
    &&& 1 <= b.height <= MAX_DIM
    &&& forall|k: int|
        0 <= k < b.food@.len() ==> in_board(#[trigger] b.food@[k], b.width as int, b.height as int)
    &&& forall|i: int|
        0 <= i < b.snakes@.len() ==> snake_wf(
            #[trigger] b.snakes@[i],
            b.width as int,
            b.height as int,
        )
}

/// Total number of body segments over a sequence of snakes.
pub open spec fn total_segments(snakes: Seq<Battlesnake>) -> int
    decreases snakes.len(),
{
    if snakes.len() == 0 {
        0
    } else {
        total_segments(snakes.drop_last()) + snakes.last().body@.len()
    }
}

/// The board holds few enough scored points for aggregation to stay within
/// `i64` range.
pub open spec fn board_sized(b: Board) -> bool {
    total_segments(b.snakes@) + b.food@.len() <= MAX_POINTS
}

/// Some segment of `pts` lies at the cell `(x, y)`.
pub open spec fn seg_at_in(pts: Seq<Coord>, x: int, y: int) -> bool {
    exists|j: int| 0 <= j < pts.len() && pts[j].x == x && pts[j].y == y
}

/// Some body segment of some snake lies at the cell `(x, y)`.
pub open spec fn snakes_seg_at(snakes: Seq<Battlesnake>, x: int, y: int) -> bool {
    exists|i: int| 0 <= i < snakes.len() && seg_at_in(#[trigger] snakes[i].body@, x, y)
}

/// Scanning one more segment of `pts` either finds the cell `(x, y)` at
/// that segment or leaves the prefix verdict unchanged.
pub proof fn lemma_seg_at_in_step(pts: Seq<Coord>, j: int, x: int, y: int)
    requires
        0 <= j < pts.len(),
    ensures
        seg_at_in(pts.take(j + 1), x, y) <==> (seg_at_in(pts.take(j), x, y) || (pts[j].x == x
            && pts[j].y == y)),
{
    if pts[j].x == x && pts[j].y == y {
        assert(pts.take(j + 1)[j] == pts[j]);
        assert(seg_at_in(pts.take(j + 1), x, y));
    }
    if seg_at_in(pts.take(j + 1), x, y) {
        let k = choose|k: int|
            0 <= k < pts.take(j + 1).len() && (#[trigger] pts.take(j + 1)[k]).x == x && pts.take(
                j + 1,
            )[k].y == y;
        assert(pts.take(j + 1)[k] == pts[k]);
        if k < j {
            assert(pts.take(j)[k] == pts[k]);
            assert(seg_at_in(pts.take(j), x, y));
        }
    }
    if seg_at_in(pts.take(j), x, y) {
        let k = choose|k: int|
            0 <= k < pts.take(j).len() && (#[trigger] pts.take(j)[k]).x == x && pts.take(j)[k].y
                == y;
        assert(pts.take(j + 1)[k] == pts[k]);
        assert(seg_at_in(pts.take(j + 1), x, y));
    }
}

/// Scanning one more snake either finds the cell `(x, y)` in that snake's
/// body or leaves the prefix verdict unchanged.
pub proof fn lemma_snakes_seg_at_step(snakes: Seq<Battlesnake>, i: int, x: int, y: int)
    requires
        0 <= i < snakes.len(),
    ensures
        snakes_seg_at(snakes.take(i + 1), x, y) <==> (snakes_seg_at(snakes.take(i), x, y)
            || seg_at_in(snakes[i].body@, x, y)),
{
    if seg_at_in(snakes[i].body@, x, y) {
        assert(snakes.take(i + 1)[i] == snakes[i]);
        assert(snakes_seg_at(snakes.take(i + 1), x, y));
    }
    if snakes_seg_at(snakes.take(i + 1), x, y) {
        let k = choose|k: int|
            0 <= k < snakes.take(i + 1).len() && seg_at_in(
                (#[trigger] snakes.take(i + 1)[k]).body@,
                x,
                y,
            );
        assert(snakes.take(i + 1)[k] == snakes[k]);
        if k < i {
            assert(snakes.take(i)[k] == snakes[k]);
            assert(snakes_seg_at(snakes.take(i), x, y));
        }
    }
    if snakes_seg_at(snakes.take(i), x, y) {
        let k = choose|k: int|
            0 <= k < snakes.take(i).len() && seg_at_in((#[trigger] snakes.take(i)[k]).body@, x, y);
        assert(snakes.take(i + 1)[k] == snakes[k]);
        assert(snakes_seg_at(snakes.take(i + 1), x, y));
    }
}

/// `total_segments` is a sum of lengths, hence never negative.
pub proof fn lemma_total_segments_nonneg(snakes: Seq<Battlesnake>)
    ensures
        total_segments(snakes) >= 0,
    decreases snakes.len(),
{
    if snakes.len() > 0 {
        lemma_total_segments_nonneg(snakes.drop_last());
    }
}

/// Extending a prefix by one snake adds that snake's body length to the
/// prefix's segment total.
pub proof fn lemma_total_segments_take_succ(snakes: Seq<Battlesnake>, i: int)
    requires
        0 <= i < snakes.len(),
    ensures
        total_segments(snakes.take(i + 1)) == total_segments(snakes.take(i))
            + snakes[i].body@.len(),
{
    assert(snakes.take(i + 1).drop_last() =~= snakes.take(i));
    assert(snakes.take(i + 1).last() == snakes[i]);
}

/// A prefix never holds more segments than the whole sequence.
pub proof fn lemma_total_segments_take_le(snakes: Seq<Battlesnake>, i: int)
    requires
        0 <= i <= snakes.len(),
    ensures
        total_segments(snakes.take(i)) <= total_segments(snakes),
    decreases snakes.len() - i,
{
    if i == snakes.len() {
        assert(snakes.take(i) =~= snakes);
    } else {
        lemma_total_segments_take_succ(snakes, i);
        lemma_total_segments_take_le(snakes, i + 1);
    }
}

} // verus!
