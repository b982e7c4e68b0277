//! The mathematical picture of one generation and of the update rule.
//!
//! A [`Board`] is a width, a height and one liveness bit per position in
//! row-major order. Every coordinate pair of integers names a position: the
//! lattice is a torus, so coordinates are taken modulo the dimensions.
//! Everything here is specification and proof; the executable lattice in
//! [`crate::grid`] states its behaviour in these terms.

use vstd::prelude::*;
use vstd::arithmetic::div_mod::lemma_fundamental_div_mod;
use vstd::arithmetic::div_mod::lemma_fundamental_div_mod_converse;
use vstd::arithmetic::div_mod::lemma_mod_multiples_vanish;
use vstd::arithmetic::div_mod::lemma_mod_bound;

verus! {

/// The in-range representative of `coord` on a ring of `dim` positions.
///
/// The remainder is the Euclidean one, so the result lies in `0..dim` for
/// every integer `coord`, negative ones included.
pub open spec fn wrap(coord: int, dim: int) -> int {
    coord % dim
}

/// 1 for a live position and 0 for a dead one.
pub open spec fn tally(alive: bool) -> int {
    if alive {
        1
    } else {
        0
    }
}

/// The rule of the automaton: a live position stays alive with two or three
/// live neighbours, a dead one comes alive with exactly three.
pub open spec fn next_state(alive: bool, neighbors: int) -> bool {
    (alive && (neighbors == 2 || neighbors == 3)) || (!alive && neighbors == 3)
}

/// The number of `true` entries of `bits`.
pub open spec fn count_live(bits: Seq<bool>) -> nat
    decreases bits.len(),
{
    if bits.len() == 0 {
        0
    } else {
        count_live(bits.drop_last()) + if bits.last() {
            1nat
        } else {
            0nat
        }
    }
}

/// One generation: dimensions and row-major liveness.
pub struct Board {
    pub width: nat,
    pub height: nat,
    pub alive: Seq<bool>,
}

impl Board {
    /// Both dimensions are positive and there is one bit per position.
    pub open spec fn wf(self) -> bool {
        &&& self.width > 0
        &&& self.height > 0
        &&& self.alive.len() == self.width * self.height
    }

    /// The row-major index of the position that `(x, y)` names on the torus.
    pub open spec fn index_of(self, x: int, y: int) -> int {
        wrap(y, self.height as int) * self.width + wrap(x, self.width as int)
    }

    /// Whether the position that `(x, y)` names is alive.
    pub open spec fn alive_at(self, x: int, y: int) -> bool {
        self.alive[self.index_of(x, y)]
    }

    /// The number of live positions among the eight probes around `(x, y)`.
    ///
    /// Each probe is resolved on the torus by itself, so on a lattice with
    /// fewer than three rows or columns one position may be counted more
    /// than once, the centre's own position included.
    pub open spec fn live_neighbors(self, x: int, y: int) -> int {
        tally(self.alive_at(x - 1, y - 1)) + tally(self.alive_at(x - 1, y)) + tally(
            self.alive_at(x - 1, y + 1),
        ) + tally(self.alive_at(x, y - 1)) + tally(self.alive_at(x, y + 1)) + tally(
            self.alive_at(x + 1, y - 1),
        ) + tally(self.alive_at(x + 1, y)) + tally(self.alive_at(x + 1, y + 1))
    }

    /// Whether `(x, y)` is alive one generation later.
    pub open spec fn next_alive(self, x: int, y: int) -> bool {
        next_state(self.alive_at(x, y), self.live_neighbors(x, y))
    }

    /// The next generation: every position is decided from this board alone.
    pub open spec fn step(self) -> Board {
        Board {
            width: self.width,
            height: self.height,
            alive: Seq::new(
                self.alive.len(),
                |i: int| self.next_alive(i % (self.width as int), i / (self.width as int)),
            ),
        }
    }

    /// The board of the given dimensions on which nothing is alive.
    pub open spec fn blank(width: nat, height: nat) -> Board {
        Board { width, height, alive: Seq::new(width * height, |i: int| false) }
    }

    /// This board with every position dead.
    pub open spec fn cleared(self) -> Board {
        Board::blank(self.width, self.height)
    }

    /// This board with the position that `(x, y)` names set to `alive`.
    pub open spec fn with_cell(self, x: int, y: int, alive: bool) -> Board {
        Board {
            width: self.width,
            height: self.height,
            alive: self.alive.update(self.index_of(x, y), alive),
        }
    }

    /// The number of live positions.
    pub open spec fn population(self) -> nat {
        count_live(self.alive)
    }

    /// Whether `other` has the dimensions of this board.
    pub open spec fn same_shape(self, other: Board) -> bool {
        self.width == other.width && self.height == other.height
    }
}

/// A wrapped coordinate lies on the ring.
pub proof fn lemma_wrap_range(coord: int, dim: int)
    requires
        dim > 0,
    ensures
        0 <= wrap(coord, dim) < dim,
{
    lemma_mod_bound(coord, dim);
}

/// A coordinate that lies on the ring is its own representative.
pub proof fn lemma_wrap_fixed(coord: int, dim: int)
    requires
        0 <= coord < dim,
    ensures
        wrap(coord, dim) == coord,
{
    lemma_fundamental_div_mod_converse(coord, dim, 0, coord);
}

/// Going round the ring any number of times changes nothing.
pub proof fn lemma_wrap_periodic(coord: int, turns: int, dim: int)
    requires
        dim > 0,
    ensures
        wrap(coord + turns * dim, dim) == wrap(coord, dim),
{
    lemma_mod_multiples_vanish(turns, coord, dim);
    assert(dim * turns + coord == coord + turns * dim) by (nonlinear_arith);
}

/// The representative can be computed by adding the dimension first.
pub proof fn lemma_wrap_shifted(coord: int, dim: int)
    requires
        dim > 0,
    ensures
        wrap(coord, dim) == (dim + coord) % dim,
{
    lemma_wrap_periodic(coord, 1, dim);
    assert(coord + 1 * dim == dim + coord);
}

/// Wrapping twice is wrapping once.
pub proof fn lemma_wrap_idempotent(coord: int, dim: int)
    requires
        dim > 0,
    ensures
        wrap(wrap(coord, dim), dim) == wrap(coord, dim),
{
    lemma_wrap_range(coord, dim);
    lemma_wrap_fixed(wrap(coord, dim), dim);
}

/// The position after `pos` on a ring of `dim` positions.
pub open spec fn ring_next(pos: int, dim: int) -> int {
    if pos + 1 == dim {
        0
    } else {
        pos + 1
    }
}

/// The position before `pos` on a ring of `dim` positions.
pub open spec fn ring_prev(pos: int, dim: int) -> int {
    if pos == 0 {
        dim - 1
    } else {
        pos - 1
    }
}

/// One step along the line is one step round the ring.
pub proof fn lemma_wrap_step(coord: int, dim: int)
    requires
        dim > 0,
    ensures
        wrap(coord + 1, dim) == ring_next(wrap(coord, dim), dim),
        wrap(coord - 1, dim) == ring_prev(wrap(coord, dim), dim),
{
    lemma_mod_bound(coord, dim);
    lemma_fundamental_div_mod(coord, dim);
    let q = coord / dim;
    let r = coord % dim;
    assert((q + 1) * dim == q * dim + dim && (q - 1) * dim == q * dim - dim && q * dim == dim
        * q) by (nonlinear_arith);
    if r + 1 == dim {
        lemma_fundamental_div_mod_converse(coord + 1, dim, q + 1, 0);
    } else {
        lemma_fundamental_div_mod_converse(coord + 1, dim, q, r + 1);
    }
    if r == 0 {
        lemma_fundamental_div_mod_converse(coord - 1, dim, q - 1, dim - 1);
    } else {
        lemma_fundamental_div_mod_converse(coord - 1, dim, q, r - 1);
    }
}

/// Wrapping before a shift is wrapping after it.
pub proof fn lemma_wrap_shift_wrapped(coord: int, shift: int, dim: int)
    requires
        dim > 0,
    ensures
        wrap(wrap(coord, dim) + shift, dim) == wrap(coord + shift, dim),
{
    lemma_fundamental_div_mod(coord, dim);
    let q = coord / dim;
    assert(coord + shift == (wrap(coord, dim) + shift) + q * dim) by (nonlinear_arith)
        requires
            coord == dim * q + wrap(coord, dim),
    ;
    lemma_wrap_periodic(wrap(coord, dim) + shift, q, dim);
}

/// A row and a column on the lattice give an index into the bits.
pub proof fn lemma_row_major_range(column: int, row: int, width: int, height: int)
    requires
        0 <= column < width,
        0 <= row < height,
    ensures
        0 <= row * width + column < width * height,
{
    assert(0 <= row * width + column < width * height) by (nonlinear_arith)
        requires
            0 <= column < width,
            0 <= row < height,
    ;
}

/// A row-major index splits into its row and column, and back.
pub proof fn lemma_row_major_split(index: int, width: int, height: int)
    requires
        width > 0,
        0 <= index < width * height,
    ensures
        0 <= index % width < width,
        0 <= index / width < height,
        (index / width) * width + index % width == index,
{
    lemma_mod_bound(index, width);
    lemma_fundamental_div_mod(index, width);
    let q = index / width;
    let r = index % width;
    assert(0 <= q < height && q * width + r == index) by (nonlinear_arith)
        requires
            width > 0,
            0 <= index < width * height,
            index == width * q + r,
            0 <= r < width,
    ;
}

/// A row and a column on the lattice are recovered from their index.
pub proof fn lemma_row_major_join(column: int, row: int, width: int)
    requires
        0 <= column < width,
    ensures
        (row * width + column) % width == column,
        (row * width + column) / width == row,
{
    lemma_fundamental_div_mod_converse(row * width + column, width, row, column);
}

impl Board {
    /// Every coordinate pair names a position of a well-formed board.
    pub proof fn lemma_index_in_range(self, x: int, y: int)
        requires
            self.wf(),
        ensures
            0 <= wrap(x, self.width as int) < self.width,
            0 <= wrap(y, self.height as int) < self.height,
            0 <= self.index_of(x, y) < self.alive.len(),
    {
        lemma_wrap_range(x, self.width as int);
        lemma_wrap_range(y, self.height as int);
        lemma_row_major_range(
            wrap(x, self.width as int),
            wrap(y, self.height as int),
            self.width as int,
            self.height as int,
        );
    }

    /// The position stored at `index` is named by its own column and row.
    pub proof fn lemma_index_of_position(self, index: int)
        requires
            self.wf(),
            0 <= index < self.alive.len(),
        ensures
            self.index_of(index % (self.width as int), index / (self.width as int)) == index,
    {
        let w = self.width as int;
        let h = self.height as int;
        lemma_row_major_split(index, w, h);
        lemma_wrap_fixed(index % w, w);
        lemma_wrap_fixed(index / w, h);
    }

    /// Coordinates that differ by whole turns name the same position.
    pub proof fn lemma_index_periodic(self, x: int, y: int, turns_x: int, turns_y: int)
        requires
            self.wf(),
        ensures
            self.index_of(x + turns_x * self.width, y + turns_y * self.height) == self.index_of(
                x,
                y,
            ),
    {
        lemma_wrap_periodic(x, turns_x, self.width as int);
        lemma_wrap_periodic(y, turns_y, self.height as int);
    }

    /// Coordinates with equal representatives name the same position.
    pub proof fn lemma_index_of_wrapped(self, x: int, y: int)
        requires
            self.wf(),
        ensures
            self.index_of(wrap(x, self.width as int), wrap(y, self.height as int))
                == self.index_of(x, y),
    {
        lemma_wrap_idempotent(x, self.width as int);
        lemma_wrap_idempotent(y, self.height as int);
    }
}

impl Board {
    /// The state that the board records for `(x, y)` is the bit stored for
    /// the wrapped coordinates.
    pub proof fn lemma_alive_at_wrapped(self, x: int, y: int)
        requires
            self.wf(),
        ensures
            self.alive_at(x, y) == self.alive_at(
                wrap(x, self.width as int),
                wrap(y, self.height as int),
            ),
    {
        self.lemma_index_of_wrapped(x, y);
    }

    /// Leaving by one edge is entering by the opposite one: coordinates that
    /// differ by whole turns round the torus see the same state.
    pub proof fn lemma_alive_at_periodic(self, x: int, y: int, turns_x: int, turns_y: int)
        requires
            self.wf(),
        ensures
            self.alive_at(x + turns_x * self.width, y + turns_y * self.height) == self.alive_at(
                x,
                y,
            ),
    {
        self.lemma_index_periodic(x, y, turns_x, turns_y);
    }

    /// Around any coordinates, on any board, between none and eight
    /// neighbours are alive.
    pub proof fn lemma_live_neighbors_bound(self, x: int, y: int)
        ensures
            0 <= self.live_neighbors(x, y) <= 8,
    {
    }

    /// On the board of one position every probe lands on that position, so
    /// a live cell counts itself eight times and a dead one not at all.
    pub proof fn lemma_single_position_neighbors(self, x: int, y: int)
        requires
            self.wf(),
            self.width == 1,
            self.height == 1,
        ensures
            self.live_neighbors(x, y) == 8 * tally(self.alive[0]),
    {
        assert forall|a: int, b: int| self.index_of(a, b) == 0 by {
            self.lemma_index_in_range(a, b);
        }
    }

    /// The next generation has the shape of this one.
    pub proof fn lemma_step_wf(self)
        requires
            self.wf(),
        ensures
            self.step().wf(),
            self.step().same_shape(self),
    {
    }

    /// The next generation holds, at every coordinate pair, what the rule
    /// decides from this generation there.
    pub proof fn lemma_step_alive_at(self, x: int, y: int)
        requires
            self.wf(),
        ensures
            self.step().alive_at(x, y) == self.next_alive(x, y),
    {
        let w = self.width as int;
        let h = self.height as int;
        let cx = wrap(x, w);
        let cy = wrap(y, h);
        self.lemma_index_in_range(x, y);
        lemma_row_major_join(cx, cy, w);
        assert(self.step().alive_at(x, y) == self.next_alive(cx, cy));
        lemma_wrap_shift_wrapped(x, -1, w);
        lemma_wrap_shift_wrapped(x, 0, w);
        lemma_wrap_shift_wrapped(x, 1, w);
        lemma_wrap_shift_wrapped(y, -1, h);
        lemma_wrap_shift_wrapped(y, 0, h);
        lemma_wrap_shift_wrapped(y, 1, h);
    }

    /// Setting one cell leaves a well-formed board of the same shape, on
    /// which that cell has the given state and every other position is as
    /// before.
    pub proof fn lemma_with_cell(self, x: int, y: int, alive: bool)
        requires
            self.wf(),
        ensures
            self.with_cell(x, y, alive).wf(),
            self.with_cell(x, y, alive).same_shape(self),
            self.with_cell(x, y, alive).alive_at(x, y) == alive,
            forall|i: int|
                0 <= i < self.alive.len() && i != self.index_of(x, y) ==> self.with_cell(
                    x,
                    y,
                    alive,
                ).alive[i] == self.alive[i],
    {
        self.lemma_index_in_range(x, y);
    }

    /// Clearing leaves no cell alive, whatever was there before.
    pub proof fn lemma_cleared_is_lifeless(self)
        ensures
            self.cleared().population() == 0,
            self.cleared().same_shape(self),
            forall|x: int, y: int| self.wf() ==> !#[trigger] self.cleared().alive_at(x, y),
    {
        lemma_blank_population(self.width, self.height);
        assert forall|x: int, y: int| self.wf() implies !#[trigger] self.cleared().alive_at(
            x,
            y,
        ) by {
            self.cleared().lemma_index_in_range(x, y);
        }
    }

    /// Clearing forgets the cells' states: boards of one shape clear to the
    /// same board, so clearing after any change of states, a random one
    /// included, gives what clearing at once gives, and clearing twice is
    /// clearing once.
    pub proof fn lemma_cleared_forgets(self, other: Board)
        requires
            other.same_shape(self),
        ensures
            other.cleared() == self.cleared(),
            self.cleared().cleared() == self.cleared(),
            other.cleared().population() == 0,
    {
        lemma_blank_population(self.width, self.height);
    }

    /// An edit and a step, taken one after the other in either order, leave
    /// a well-formed board of the shape they started from.
    pub proof fn lemma_edit_and_step_keep_shape(self, x: int, y: int, alive: bool)
        requires
            self.wf(),
        ensures
            self.with_cell(x, y, alive).step().wf(),
            self.with_cell(x, y, alive).step().same_shape(self),
            self.step().with_cell(x, y, alive).wf(),
            self.step().with_cell(x, y, alive).same_shape(self),
    {
        self.lemma_with_cell(x, y, alive);
        self.step().lemma_with_cell(x, y, alive);
    }
}

/// A sequence without a live entry counts zero.
pub proof fn lemma_count_live_none(bits: Seq<bool>)
    requires
        forall|i: int| 0 <= i < bits.len() ==> !bits[i],
    ensures
        count_live(bits) == 0,
    decreases bits.len(),
{
    if bits.len() > 0 {
        lemma_count_live_none(bits.drop_last());
    }
}

/// Nothing lives on a blank board.
pub proof fn lemma_blank_population(width: nat, height: nat)
    ensures
        Board::blank(width, height).population() == 0,
{
    lemma_count_live_none(Board::blank(width, height).alive);
}

} // verus!
