//! Named patterns and what becomes of them.
//!
//! A pattern is a shape: a predicate on offsets from an anchor. Placing a
//! shape on a torus takes the offsets round the torus, so a shape may be
//! anchored anywhere, the edges included. The theorems here hold for every
//! torus that is large enough for the pattern and for every anchor.

use vstd::prelude::*;
use crate::board::lemma_row_major_join;
use crate::board::lemma_row_major_split;
use crate::board::lemma_wrap_range;
use crate::board::lemma_wrap_shift_wrapped;
use crate::board::lemma_wrap_step;
use crate::board::next_state;
use crate::board::ring_next;
use crate::board::ring_prev;
use crate::board::tally;
use crate::board::wrap;
use crate::board::Board;

verus! {

/// The board on which exactly the positions of `shape` are alive, the
/// shape's offsets being counted from `(anchor_x, anchor_y)` round the torus.
pub open spec fn placed(
    width: nat,
    height: nat,
    anchor_x: int,
    anchor_y: int,
    shape: spec_fn(int, int) -> bool,
) -> Board {
    Board {
        width,
        height,
        alive: Seq::new(
            width * height,
            |i: int|
                shape(
                    wrap(i % (width as int) - anchor_x, width as int),
                    wrap(i / (width as int) - anchor_y, height as int),
                ),
        ),
    }
}

/// The number of positions of `shape` among the eight around offset
/// `(u, v)` on a torus of the given dimensions.
pub open spec fn around(
    shape: spec_fn(int, int) -> bool,
    u: int,
    v: int,
    width: int,
    height: int,
) -> int {
    let left = ring_prev(u, width);
    let right = ring_next(u, width);
    let above = ring_prev(v, height);
    let below = ring_next(v, height);
    tally(shape(left, above)) + tally(shape(left, v)) + tally(shape(left, below)) + tally(
        shape(u, above),
    ) + tally(shape(u, below)) + tally(shape(right, above)) + tally(shape(right, v)) + tally(
        shape(right, below),
    )
}

/// Whether the rule turns `from` into `to` at every offset of a torus of
/// the given dimensions.
pub open spec fn evolves(
    from: spec_fn(int, int) -> bool,
    to: spec_fn(int, int) -> bool,
    width: int,
    height: int,
) -> bool {
    forall|u: int, v: int|
        0 <= u < width && 0 <= v < height ==> #[trigger] to(u, v) == next_state(
            from(u, v),
            around(from, u, v, width, height),
        )
}

/// A placed shape is alive exactly where the shape says, seen from the
/// anchor.
pub proof fn lemma_placed_alive_at(
    width: nat,
    height: nat,
    anchor_x: int,
    anchor_y: int,
    shape: spec_fn(int, int) -> bool,
    x: int,
    y: int,
)
    requires
        width > 0,
        height > 0,
    ensures
        placed(width, height, anchor_x, anchor_y, shape).wf(),
        placed(width, height, anchor_x, anchor_y, shape).alive_at(x, y) == shape(
            wrap(x - anchor_x, width as int),
            wrap(y - anchor_y, height as int),
        ),
{
    let w = width as int;
    let h = height as int;
    let board = placed(width, height, anchor_x, anchor_y, shape);
    board.lemma_index_in_range(x, y);
    lemma_row_major_join(wrap(x, w), wrap(y, h), w);
    lemma_wrap_shift_wrapped(x, -anchor_x, w);
    lemma_wrap_shift_wrapped(y, -anchor_y, h);
}

/// Around any coordinates, a placed shape has as many live neighbours as
/// the shape has positions around the matching offset.
pub proof fn lemma_placed_live_neighbors(
    width: nat,
    height: nat,
    anchor_x: int,
    anchor_y: int,
    shape: spec_fn(int, int) -> bool,
    x: int,
    y: int,
)
    requires
        width > 0,
        height > 0,
    ensures
        placed(width, height, anchor_x, anchor_y, shape).live_neighbors(x, y) == around(
            shape,
            wrap(x - anchor_x, width as int),
            wrap(y - anchor_y, height as int),
            width as int,
            height as int,
        ),
{
    let w = width as int;
    let h = height as int;
    lemma_wrap_step(x - anchor_x, w);
    lemma_wrap_step(y - anchor_y, h);
    lemma_placed_alive_at(width, height, anchor_x, anchor_y, shape, x - 1, y - 1);
    lemma_placed_alive_at(width, height, anchor_x, anchor_y, shape, x - 1, y);
    lemma_placed_alive_at(width, height, anchor_x, anchor_y, shape, x - 1, y + 1);
    lemma_placed_alive_at(width, height, anchor_x, anchor_y, shape, x, y - 1);
    lemma_placed_alive_at(width, height, anchor_x, anchor_y, shape, x, y + 1);
    lemma_placed_alive_at(width, height, anchor_x, anchor_y, shape, x + 1, y - 1);
    lemma_placed_alive_at(width, height, anchor_x, anchor_y, shape, x + 1, y);
    lemma_placed_alive_at(width, height, anchor_x, anchor_y, shape, x + 1, y + 1);
}

/// Where the rule turns one shape into another, one generation turns the
/// first shape placed into the second placed at the same anchor.
pub proof fn lemma_placed_step(
    width: nat,
    height: nat,
    anchor_x: int,
    anchor_y: int,
    from: spec_fn(int, int) -> bool,
    to: spec_fn(int, int) -> bool,
)
    requires
        width > 0,
        height > 0,
        evolves(from, to, width as int, height as int),
    ensures
        placed(width, height, anchor_x, anchor_y, from).step() == placed(
            width,
            height,
            anchor_x,
            anchor_y,
            to,
        ),
{
    let w = width as int;
    let h = height as int;
    let before = placed(width, height, anchor_x, anchor_y, from);
    let after = placed(width, height, anchor_x, anchor_y, to);
    assert forall|i: int| 0 <= i < before.alive.len() implies before.step().alive[i]
        == after.alive[i] by {
        let x = i % w;
        let y = i / w;
        lemma_row_major_split(i, w, h);
        lemma_placed_alive_at(width, height, anchor_x, anchor_y, from, x, y);
        lemma_placed_live_neighbors(width, height, anchor_x, anchor_y, from, x, y);
        let u = wrap(x - anchor_x, w);
        let v = wrap(y - anchor_y, h);
        lemma_wrap_range(x - anchor_x, w);
        lemma_wrap_range(y - anchor_y, h);
        assert(to(u, v) == next_state(from(u, v), around(from, u, v, w, h)));
    }
    assert(before.step().alive =~= after.alive);
}

/// Moving the anchor one step down and to the right moves every position
/// of the shape with it.
pub proof fn lemma_placed_moved(
    width: nat,
    height: nat,
    anchor_x: int,
    anchor_y: int,
    shape: spec_fn(int, int) -> bool,
    moved: spec_fn(int, int) -> bool,
)
    requires
        width > 0,
        height > 0,
        forall|u: int, v: int|
            0 <= u < width && 0 <= v < height ==> #[trigger] moved(u, v) == shape(
                ring_prev(u, width as int),
                ring_prev(v, height as int),
            ),
    ensures
        placed(width, height, anchor_x + 1, anchor_y + 1, shape) == placed(
            width,
            height,
            anchor_x,
            anchor_y,
            moved,
        ),
{
    let w = width as int;
    let h = height as int;
    let there = placed(width, height, anchor_x + 1, anchor_y + 1, shape);
    let here = placed(width, height, anchor_x, anchor_y, moved);
    assert forall|i: int| 0 <= i < there.alive.len() implies there.alive[i] == here.alive[i] by {
        let x = i % w;
        let y = i / w;
        lemma_wrap_step(x - anchor_x, w);
        lemma_wrap_step(y - anchor_y, h);
        lemma_wrap_range(x - anchor_x, w);
        lemma_wrap_range(y - anchor_y, h);
    }
    assert(there.alive =~= here.alive);
}

/// The shape without a position.
pub open spec fn empty_shape() -> spec_fn(int, int) -> bool {
    |u: int, v: int| false
}

/// Placing nothing leaves the blank board.
pub proof fn lemma_placed_empty(width: nat, height: nat, anchor_x: int, anchor_y: int)
    ensures
        placed(width, height, anchor_x, anchor_y, empty_shape()) == Board::blank(width, height),
{
    assert(placed(width, height, anchor_x, anchor_y, empty_shape()).alive =~= Board::blank(
        width,
        height,
    ).alive);
}

/// The single position at the anchor.
pub open spec fn lone_cell_shape() -> spec_fn(int, int) -> bool {
    |u: int, v: int| u == 0 && v == 0
}

/// The board on which the cell at `(x, y)` is alive and no other.
pub open spec fn lone_cell(width: nat, height: nat, x: int, y: int) -> Board {
    placed(width, height, x, y, lone_cell_shape())
}

/// A cell on its own dies: on a torus of at least three by three it has
/// no live neighbour, each of the eight cells around it has exactly one,
/// and the next generation is blank.
pub proof fn lemma_lone_cell_dies(width: nat, height: nat, x: int, y: int)
    requires
        width >= 3,
        height >= 3,
    ensures
        lone_cell(width, height, x, y).wf(),
        lone_cell(width, height, x, y).live_neighbors(x, y) == 0,
        forall|dx: int, dy: int|
            -1 <= dx <= 1 && -1 <= dy <= 1 && !(dx == 0 && dy == 0) ==> #[trigger] lone_cell(
                width,
                height,
                x,
                y,
            ).live_neighbors(x + dx, y + dy) == 1,
        lone_cell(width, height, x, y).step() == Board::blank(width, height),
{
    let w = width as int;
    let h = height as int;
    let shape = lone_cell_shape();
    let board = lone_cell(width, height, x, y);
    lemma_placed_alive_at(width, height, x, y, shape, x, y);
    assert forall|dx: int, dy: int|
        -1 <= dx <= 1 && -1 <= dy <= 1 implies #[trigger] board.live_neighbors(x + dx, y + dy)
        == tally(dx != 0 || dy != 0) by {
        lemma_placed_live_neighbors(width, height, x, y, shape, x + dx, y + dy);
        lemma_wrap_step(0, w);
        lemma_wrap_step(0, h);
        crate::board::lemma_wrap_fixed(0, w);
        crate::board::lemma_wrap_fixed(0, h);
    }
    assert(board.live_neighbors(x + 0, y + 0) == 0);
    assert(evolves(shape, empty_shape(), w, h));
    lemma_placed_step(width, height, x, y, shape, empty_shape());
    lemma_placed_empty(width, height, x, y);
}

/// The blinker lying down: three positions in a row, the middle one at
/// the anchor.
pub open spec fn blinker_row_shape(width: int) -> spec_fn(int, int) -> bool {
    |u: int, v: int| v == 0 && (u == 0 || u == 1 || u == width - 1)
}

/// The blinker standing up: three positions in a column, the middle one
/// at the anchor.
pub open spec fn blinker_column_shape(height: int) -> spec_fn(int, int) -> bool {
    |u: int, v: int| u == 0 && (v == 0 || v == 1 || v == height - 1)
}

/// The board with a row of three live cells whose middle is at `(x, y)`.
pub open spec fn blinker_row(width: nat, height: nat, x: int, y: int) -> Board {
    placed(width, height, x, y, blinker_row_shape(width as int))
}

/// The board with a column of three live cells whose middle is at
/// `(x, y)`.
pub open spec fn blinker_column(width: nat, height: nat, x: int, y: int) -> Board {
    placed(width, height, x, y, blinker_column_shape(height as int))
}

/// The blinker turns as a whole: on a torus of at least four by four a
/// row of three becomes the column of three through its middle, and that
/// column becomes the row again. Every cell is decided from the
/// generation before, none from a neighbour's new state.
pub proof fn lemma_blinker_turns(width: nat, height: nat, x: int, y: int)
    requires
        width >= 4,
        height >= 4,
    ensures
        blinker_row(width, height, x, y).wf(),
        blinker_row(width, height, x, y).step() == blinker_column(width, height, x, y),
        blinker_column(width, height, x, y).step() == blinker_row(width, height, x, y),
{
    let w = width as int;
    let h = height as int;
    let row = blinker_row_shape(w);
    let column = blinker_column_shape(h);
    lemma_placed_alive_at(width, height, x, y, row, x, y);
    assert(evolves(row, column, w, h));
    assert(evolves(column, row, w, h));
    lemma_placed_step(width, height, x, y, row, column);
    lemma_placed_step(width, height, x, y, column, row);
}

/// The block: two by two positions from the anchor.
pub open spec fn block_shape() -> spec_fn(int, int) -> bool {
    |u: int, v: int| 0 <= u < 2 && 0 <= v < 2
}

/// A block placed on a torus: alive at the anchor, at its right-hand
/// neighbour and at the two positions below these, and nowhere else.
pub open spec fn block(width: nat, height: nat, anchor_x: int, anchor_y: int) -> Board {
    placed(width, height, anchor_x, anchor_y, block_shape())
}

/// The block is a still life: on a torus of at least four by four it is
/// its own next generation, wherever it is anchored.
pub proof fn lemma_block_is_still_life(width: nat, height: nat, anchor_x: int, anchor_y: int)
    requires
        width >= 4,
        height >= 4,
    ensures
        block(width, height, anchor_x, anchor_y).wf(),
        block(width, height, anchor_x, anchor_y).step() == block(
            width,
            height,
            anchor_x,
            anchor_y,
        ),
{
    let shape = block_shape();
    assert(evolves(shape, shape, width as int, height as int));
    lemma_placed_step(width, height, anchor_x, anchor_y, shape, shape);
}

/// The glider as it sets out.
///
/// ```text
/// . O .
/// . . O
/// O O O
/// ```
pub open spec fn glider_shape() -> spec_fn(int, int) -> bool {
    |u: int, v: int|
        (u == 1 && v == 0) || (u == 2 && v == 1) || (u == 0 && v == 2) || (u == 1 && v == 2) || (u
            == 2 && v == 2)
}

/// The glider one generation on.
///
/// ```text
/// . . .
/// O . O
/// . O O
/// . O .
/// ```
pub open spec fn glider_second() -> spec_fn(int, int) -> bool {
    |u: int, v: int|
        (u == 0 && v == 1) || (u == 2 && v == 1) || (u == 1 && v == 2) || (u == 2 && v == 2) || (u
            == 1 && v == 3)
}

/// The glider two generations on.
///
/// ```text
/// . . .
/// . . O
/// O . O
/// . O O
/// ```
pub open spec fn glider_third() -> spec_fn(int, int) -> bool {
    |u: int, v: int|
        (u == 2 && v == 1) || (u == 0 && v == 2) || (u == 2 && v == 2) || (u == 1 && v == 3) || (u
            == 2 && v == 3)
}

/// The glider three generations on.
///
/// ```text
/// . . . .
/// . O . .
/// . . O O
/// . O O .
/// ```
pub open spec fn glider_fourth() -> spec_fn(int, int) -> bool {
    |u: int, v: int|
        (u == 1 && v == 1) || (u == 2 && v == 2) || (u == 3 && v == 2) || (u == 1 && v == 3) || (u
            == 2 && v == 3)
}

/// The glider four generations on: its first shape, one step down and to
/// the right.
///
/// ```text
/// . . . .
/// . . O .
/// . . . O
/// . O O O
/// ```
pub open spec fn glider_moved() -> spec_fn(int, int) -> bool {
    |u: int, v: int|
        (u == 2 && v == 1) || (u == 3 && v == 2) || (u == 1 && v == 3) || (u == 2 && v == 3) || (u
            == 3 && v == 3)
}

/// A glider placed on a torus with the corner of its box at the anchor.
pub open spec fn glider(width: nat, height: nat, anchor_x: int, anchor_y: int) -> Board {
    placed(width, height, anchor_x, anchor_y, glider_shape())
}

/// The glider travels: on a torus of at least five by five, four
/// generations bring back its shape one step down and one step to the
/// right of where it set out, wherever that was.
pub proof fn lemma_glider_travels(width: nat, height: nat, anchor_x: int, anchor_y: int)
    requires
        width >= 5,
        height >= 5,
    ensures
        glider(width, height, anchor_x, anchor_y).wf(),
        glider(width, height, anchor_x, anchor_y).step().step().step().step() == glider(
            width,
            height,
            anchor_x + 1,
            anchor_y + 1,
        ),
{
    let w = width as int;
    let h = height as int;
    assert(evolves(glider_shape(), glider_second(), w, h));
    assert(evolves(glider_second(), glider_third(), w, h));
    assert(evolves(glider_third(), glider_fourth(), w, h));
    assert(evolves(glider_fourth(), glider_moved(), w, h));
    lemma_placed_step(width, height, anchor_x, anchor_y, glider_shape(), glider_second());
    lemma_placed_step(width, height, anchor_x, anchor_y, glider_second(), glider_third());
    lemma_placed_step(width, height, anchor_x, anchor_y, glider_third(), glider_fourth());
    lemma_placed_step(width, height, anchor_x, anchor_y, glider_fourth(), glider_moved());
    lemma_placed_moved(width, height, anchor_x, anchor_y, glider_shape(), glider_moved());
}

} // verus!
