//! The executable lattice.
//!
//! A [`Grid`] stores its cells in row-major order, each with its own
//! coordinates. Its behaviour is stated over its [`Board`]: the view keeps
//! the dimensions and the liveness bits and forgets the stored coordinates,
//! which well-formedness ties to the positions.

use vstd::prelude::*;
use crate::board::lemma_row_major_split;
use crate::board::tally;
use crate::board::wrap;
use crate::board::Board;
use crate::cell::Cell;
use vstd::arithmetic::div_mod::lemma_fundamental_div_mod;
use vstd::arithmetic::div_mod::lemma_fundamental_div_mod_converse;
use vstd::arithmetic::div_mod::lemma_mod_bound;

verus! {

/// Why a grid of the requested dimensions cannot be built.
#[derive(Clone, Copy, Debug, PartialEq, Eq, Structural)]
pub enum GridError {
    /// The width or the height is zero.
    InvalidDimensions,
    /// A coordinate would not fit in `i32`, or the number of cells would not
    /// fit in `usize`.
    TooLarge,
}

/// A toroidal lattice of cells.
pub struct Grid {
    pub width: usize,
    pub height: usize,
    pub cells: Vec<Cell>,
}

impl View for Grid {
    type V = Board;

    open spec fn view(&self) -> Board {
        Board {
            width: self.width as nat,
            height: self.height as nat,
            alive: liveness(self.cells@),
        }
    }
}

/// The liveness bits of a sequence of cells, in order.
pub open spec fn liveness(cells: Seq<Cell>) -> Seq<bool> {
    Seq::new(cells.len(), |i: int| cells[i].alive)
}

/// Replacing one cell changes the one bit that belongs to it.
proof fn lemma_liveness_update(cells: Seq<Cell>, index: int, cell: Cell)
    requires
        0 <= index < cells.len(),
    ensures
        liveness(cells.update(index, cell)) == liveness(cells).update(index, cell.alive),
{
    assert(liveness(cells.update(index, cell)) =~= liveness(cells).update(index, cell.alive));
}

/// The remainder of `coord` on a ring of `dim` positions, never negative.
fn wrap_coordinate(coord: i64, dim: usize) -> (r: usize)
    requires
        0 < dim <= i32::MAX,
    ensures
        r == wrap(coord as int, dim as int),
{
    let d: i64 = dim as i64;
    if coord >= 0 {
        proof {
            lemma_mod_bound(coord as int, d as int);
        }
        (coord % d) as usize
    } else {
        let mirrored: i64 = -(coord + 1);
        let back: i64 = mirrored % d;
        proof {
            lemma_mod_bound(mirrored as int, d as int);
            lemma_fundamental_div_mod(mirrored as int, d as int);
            let q = (mirrored as int) / (d as int);
            assert(coord as int == (-q - 1) * d + (d - 1 - back)) by (nonlinear_arith)
                requires
                    mirrored == -(coord + 1),
                    mirrored == d * q + back,
            ;
            lemma_fundamental_div_mod_converse(coord as int, d as int, -q - 1, d - 1 - back);
        }
        (d - 1 - back) as usize
    }
}

/// The probe at offset `(dx, dy)` from `(x, y)`; the centre counts for
/// nothing.
spec fn probe(board: Board, x: int, y: int, dx: int, dy: int) -> int {
    if dx == 0 && dy == 0 {
        0
    } else {
        tally(board.alive_at(x + dx, y + dy))
    }
}

/// The probes at column offset `dx` whose row offset lies in `-1..dy`.
spec fn live_in_column(board: Board, x: int, y: int, dx: int, dy: int) -> int {
    (if dy > -1 {
        probe(board, x, y, dx, -1)
    } else {
        0
    }) + (if dy > 0 {
        probe(board, x, y, dx, 0)
    } else {
        0
    }) + (if dy > 1 {
        probe(board, x, y, dx, 1)
    } else {
        0
    })
}

/// The probes whose column offset lies in `-1..dx`, whole columns each.
spec fn live_in_columns(board: Board, x: int, y: int, dx: int) -> int {
    (if dx > -1 {
        live_in_column(board, x, y, -1, 2)
    } else {
        0
    }) + (if dx > 0 {
        live_in_column(board, x, y, 0, 2)
    } else {
        0
    }) + (if dx > 1 {
        live_in_column(board, x, y, 1, 2)
    } else {
        0
    })
}

/// One state drawn from `rand::random`.
///
/// The outcome is a matter of chance, so nothing is claimed of it. The
/// generator seeds itself from the operating system on first use in a thread
/// and aborts the call if that fails; this is not modelled.
#[verifier::external_body]
fn random_state() -> (alive: bool) {
    rand::random()
}

impl Grid {
    /// What stands in the way of a grid of these dimensions, if anything.
    pub open spec fn dimension_fault(width: usize, height: usize) -> Option<GridError> {
        if width == 0 || height == 0 {
            Some(GridError::InvalidDimensions)
        } else if width > i32::MAX || height > i32::MAX || width * height > usize::MAX {
            Some(GridError::TooLarge)
        } else {
            None
        }
    }

    /// The dimensions are usable, there is one cell per position, and every
    /// cell carries the coordinates of its position.
    pub open spec fn wf(&self) -> bool {
        &&& Grid::dimension_fault(self.width, self.height) is None
        &&& self.cells@.len() == self.width * self.height
        &&& forall|i: int|
            0 <= i < self.cells@.len() ==> {
                &&& (#[trigger] self.cells@[i]).x == i % (self.width as int)
                &&& self.cells@[i].y == i / (self.width as int)
            }
    }

    /// The cell that `(x, y)` names on the torus.
    pub open spec fn cell_at(&self, x: int, y: int) -> Cell {
        self.cells@[self@.index_of(x, y)]
    }

    /// The cell that `(x, y)` names carries the wrapped coordinates and the
    /// state that the board records for them.
    pub proof fn lemma_cell_at(&self, x: int, y: int)
        requires
            self.wf(),
        ensures
            0 <= self@.index_of(x, y) < self.cells@.len(),
            self.cell_at(x, y).alive == self@.alive_at(x, y),
            self.cell_at(x, y).x == wrap(x, self.width as int),
            self.cell_at(x, y).y == wrap(y, self.height as int),
    {
        let w = self.width as int;
        self@.lemma_index_in_range(x, y);
        crate::board::lemma_row_major_join(wrap(x, w), wrap(y, self.height as int), w);
    }

    /// The board of a well-formed grid forgets nothing: well-formed grids
    /// with the same board have the same dimensions and the same cells.
    pub proof fn lemma_board_determines_grid(&self, other: &Grid)
        requires
            self.wf(),
            other.wf(),
            self@ == other@,
        ensures
            self.width == other.width,
            self.height == other.height,
            self.cells@ == other.cells@,
    {
        assert forall|i: int| 0 <= i < self.cells@.len() implies self.cells@[i]
            == other.cells@[i] by {
            assert(self@.alive[i] == self.cells@[i].alive);
            assert(other@.alive[i] == other.cells@[i].alive);
        }
        assert(self.cells@ =~= other.cells@);
    }

    /// Leaving the grid by one edge is entering it by the opposite one: the
    /// column before the first is the last, the column after the last is
    /// the first, and likewise for the rows.
    pub proof fn lemma_wrap_around(&self, x: int, y: int)
        requires
            self.wf(),
        ensures
            self.cell_at(-1, y) == self.cell_at(self.width - 1, y),
            self.cell_at(self.width as int, y) == self.cell_at(0, y),
            self.cell_at(x, -1) == self.cell_at(x, self.height - 1),
            self.cell_at(x, self.height as int) == self.cell_at(x, 0),
    {
        self.lemma_cell_at_periodic(self.width - 1, y, -1, 0);
        self.lemma_cell_at_periodic(0, y, 1, 0);
        self.lemma_cell_at_periodic(x, self.height - 1, 0, -1);
        self.lemma_cell_at_periodic(x, 0, 0, 1);
    }

    /// Coordinates that differ by whole turns round the torus name the same
    /// cell.
    pub proof fn lemma_cell_at_periodic(&self, x: int, y: int, turns_x: int, turns_y: int)
        requires
            self.wf(),
        ensures
            self.cell_at(x + turns_x * self.width, y + turns_y * self.height) == self.cell_at(
                x,
                y,
            ),
    {
        self@.lemma_index_periodic(x, y, turns_x, turns_y);
    }

    /// The all-dead grid of the given dimensions.
    pub(crate) fn blank(width: usize, height: usize) -> (grid: Grid)
        requires
            Grid::dimension_fault(width, height) is None,
        ensures
            grid.wf(),
            grid@ == Board::blank(width as nat, height as nat),
    {
        let total: usize = width * height;
        let mut cells: Vec<Cell> = Vec::new();
        let mut i: usize = 0;
        while i < total
            invariant
                Grid::dimension_fault(width, height) is None,
                total == width * height,
                i <= total,
                cells@.len() == i,
                forall|j: int|
                    0 <= j < i ==> (#[trigger] cells@[j]) == (Cell {
                        alive: false,
                        x: (j % (width as int)) as i32,
                        y: (j / (width as int)) as i32,
                    }),
            decreases total - i,
        {
            proof {
                lemma_row_major_split(i as int, width as int, height as int);
            }
            cells.push(Cell::new((i % width) as i32, (i / width) as i32, false));
            i += 1;
        }
        let grid = Grid { width, height, cells };
        proof {
            assert forall|j: int| 0 <= j < grid.cells@.len() implies {
                &&& (#[trigger] grid.cells@[j]).x == j % (width as int)
                &&& grid.cells@[j].y == j / (width as int)
            } by {
                lemma_row_major_split(j, width as int, height as int);
            }
            assert(grid@.alive =~= Board::blank(width as nat, height as nat).alive);
        }
        grid
    }

    /// Builds the grid of the given dimensions with every cell dead.
    ///
    /// A zero dimension is rejected as [`GridError::InvalidDimensions`];
    /// dimensions beyond what coordinates and indices can hold are rejected
    /// as [`GridError::TooLarge`].
    pub fn new(width: usize, height: usize) -> (r: Result<Grid, GridError>)
        ensures
            match r {
                Ok(grid) => {
                    &&& Grid::dimension_fault(width, height) is None
                    &&& grid.wf()
                    &&& grid@ == Board::blank(width as nat, height as nat)
                },
                Err(e) => Grid::dimension_fault(width, height) == Some(e),
            },
    {
        if width == 0 || height == 0 {
            return Err(GridError::InvalidDimensions);
        }
        if width > i32::MAX as usize || height > i32::MAX as usize {
            return Err(GridError::TooLarge);
        }
        match width.checked_mul(height) {
            Some(_) => Ok(Grid::blank(width, height)),
            None => Err(GridError::TooLarge),
        }
    }

    /// Whether the grid is well-formed, for callers that built or changed
    /// it through its fields.
    pub fn is_well_formed(&self) -> (ok: bool)
        ensures
            ok == self.wf(),
    {
        if self.width == 0 || self.height == 0 || self.width > i32::MAX as usize || self.height
            > i32::MAX as usize {
            return false;
        }
        match self.width.checked_mul(self.height) {
            Some(total) => {
                if self.cells.len() != total {
                    return false;
                }
            },
            None => {
                return false;
            },
        }
        let mut i: usize = 0;
        while i < self.cells.len()
            invariant
                Grid::dimension_fault(self.width, self.height) is None,
                self.cells@.len() == self.width * self.height,
                i <= self.cells@.len(),
                forall|j: int|
                    0 <= j < i ==> {
                        &&& (#[trigger] self.cells@[j]).x == j % (self.width as int)
                        &&& self.cells@[j].y == j / (self.width as int)
                    },
            decreases self.cells@.len() - i,
        {
            let cell = &self.cells[i];
            proof {
                lemma_row_major_split(i as int, self.width as int, self.height as int);
            }
            if cell.x < 0 || cell.y < 0 || cell.x as usize != i % self.width || cell.y as usize != i
                / self.width {
                return false;
            }
            i += 1;
        }
        true
    }

    /// The index of the cell that `(x, y)` names on the torus.
    fn locate(&self, x: i64, y: i64) -> (index: usize)
        requires
            self.wf(),
        ensures
            index == self@.index_of(x as int, y as int),
            index < self.cells@.len(),
    {
        let column = wrap_coordinate(x, self.width);
        let row = wrap_coordinate(y, self.height);
        proof {
            self@.lemma_index_in_range(x as int, y as int);
        }
        row * self.width + column
    }

    /// The cell at `(x, y)`, with both coordinates wrapped onto the torus
    /// (the same cell as at `((width + x) mod width, (height + y) mod
    /// height)` with the non-negative remainder).
    ///
    /// Every pair of coordinates names a cell, so the result is never `None`.
    pub fn get_cell(&self, x: i32, y: i32) -> (r: Option<&Cell>)
        requires
            self.wf(),
        ensures
            r == Some(&self.cell_at(x as int, y as int)),
            self.cell_at(x as int, y as int).alive == self@.alive_at(x as int, y as int),
            self.cell_at(x as int, y as int).x == wrap(x as int, self.width as int),
            self.cell_at(x as int, y as int).y == wrap(y as int, self.height as int),
    {
        let index = self.locate(x as i64, y as i64);
        proof {
            self.lemma_cell_at(x as int, y as int);
        }
        Some(&self.cells[index])
    }

    /// Mutable access to the cell at `(x, y)`, with both coordinates wrapped
    /// onto the torus.
    ///
    /// Every pair of coordinates names a cell, so the result is never `None`.
    /// The grid afterwards is the old grid with that one cell replaced by
    /// whatever the borrower leaves in it; it stays well-formed as long as
    /// the borrower leaves the coordinates alone.
    pub fn get_cell_mut(&mut self, x: i32, y: i32) -> (r: Option<&mut Cell>)
        requires
            old(self).wf(),
        ensures
            r is Some,
            *r.unwrap() == old(self).cell_at(x as int, y as int),
            final(self).width == old(self).width,
            final(self).height == old(self).height,
            final(self).cells@ == old(self).cells@.update(
                old(self)@.index_of(x as int, y as int),
                *final(r.unwrap()),
            ),
            final(self)@ == old(self)@.with_cell(x as int, y as int, final(r.unwrap()).alive),
            final(r.unwrap()).x == r.unwrap().x && final(r.unwrap()).y == r.unwrap().y
                ==> final(self).wf(),
    {
        let index = self.locate(x as i64, y as i64);
        proof {
            self.lemma_cell_at(x as int, y as int);
            assert forall|cell: Cell|
                #[trigger] liveness(self.cells@.update(index as int, cell)) == liveness(
                    self.cells@,
                ).update(index as int, cell.alive) by {
                lemma_liveness_update(self.cells@, index as int, cell);
            }
        }
        Some(&mut self.cells[index])
    }

    /// Sets the state of the cell at `(x, y)`, with both coordinates wrapped
    /// onto the torus, and leaves every other cell as it was.
    pub fn set_cell_alive(&mut self, x: i32, y: i32, alive: bool)
        requires
            old(self).wf(),
        ensures
            final(self).wf(),
            final(self)@ == old(self)@.with_cell(x as int, y as int, alive),
    {
        match self.get_cell_mut(x, y) {
            Some(cell) => {
                cell.alive = alive;
            },
            None => {},
        }
    }

    /// Sets the state of the cell stored at `index` in row-major order and
    /// leaves every other cell as it was.
    pub fn set_state(&mut self, index: usize, alive: bool)
        requires
            old(self).wf(),
            index < old(self).cells@.len(),
        ensures
            final(self).wf(),
            final(self)@ == (Board {
                alive: old(self)@.alive.update(index as int, alive),
                ..old(self)@
            }),
    {
        self.cells[index].alive = alive;
        proof {
            let cell = self.cells@[index as int];
            lemma_liveness_update(old(self).cells@, index as int, cell);
            assert(self.cells@ =~= old(self).cells@.update(index as int, cell));
        }
    }

    /// The number of live cells among the eight probes around `cell`'s
    /// coordinates, each probe wrapped onto the torus by itself.
    ///
    /// The centre is left out by its offset, not by its position: on a grid
    /// with fewer than three rows or columns a probe may land on a cell
    /// already counted, or on the centre itself, and is counted all the same.
    pub fn get_alive_neighbors(&self, cell: &Cell) -> (count: u8)
        requires
            self.wf(),
        ensures
            count == self@.live_neighbors(cell.x as int, cell.y as int),
            count <= 8,
    {
        let ghost board = self@;
        let ghost cx = cell.x as int;
        let ghost cy = cell.y as int;
        let mut count: u8 = 0;
        let mut dx: i64 = -1;
        while dx <= 1
            invariant
                self.wf(),
                board == self@,
                cx == cell.x,
                cy == cell.y,
                -1 <= dx <= 2,
                count == live_in_columns(board, cx, cy, dx as int),
                count <= 3 * (dx + 1),
            decreases 2 - dx,
        {
            let mut dy: i64 = -1;
            while dy <= 1
                invariant
                    self.wf(),
                    board == self@,
                    cx == cell.x,
                    cy == cell.y,
                    -1 <= dx <= 1,
                    -1 <= dy <= 2,
                    count == live_in_columns(board, cx, cy, dx as int) + live_in_column(
                        board,
                        cx,
                        cy,
                        dx as int,
                        dy as int,
                    ),
                    count <= 3 * (dx + 1) + (dy + 1),
                decreases 2 - dy,
            {
                if !(dx == 0 && dy == 0) {
                    let index = self.locate(cell.x as i64 + dx, cell.y as i64 + dy);
                    if self.cells[index].alive {
                        count += 1;
                    }
                }
                dy += 1;
            }
            dx += 1;
        }
        count
    }

    /// Kills every cell.
    pub fn clear(&mut self)
        requires
            old(self).wf(),
        ensures
            final(self).wf(),
            final(self)@ == old(self)@.cleared(),
            final(self)@.population() == 0,
    {
        let mut i: usize = 0;
        while i < self.cells.len()
            invariant
                self.wf(),
                self.width == old(self).width,
                self.height == old(self).height,
                i <= self.cells@.len(),
                forall|j: int| 0 <= j < i ==> !(#[trigger] self@.alive[j]),
            decreases self.cells@.len() - i,
        {
            self.set_state(i, false);
            i += 1;
        }
        proof {
            assert(self@.alive =~= old(self)@.cleared().alive);
            crate::board::lemma_blank_population(self.width as nat, self.height as nat);
        }
    }

    /// Gives every cell a state drawn at random, independently of the others.
    ///
    /// Nothing is promised of the states; the dimensions and the cells'
    /// coordinates stay as they were.
    pub fn randomize(&mut self)
        requires
            old(self).wf(),
        ensures
            final(self).wf(),
            final(self)@.same_shape(old(self)@),
    {
        let mut i: usize = 0;
        while i < self.cells.len()
            invariant
                self.wf(),
                self.width == old(self).width,
                self.height == old(self).height,
            decreases self.cells@.len() - i,
        {
            let alive = random_state();
            self.set_state(i, alive);
            i += 1;
        }
    }

    /// The next generation, as a grid of its own.
    ///
    /// Every cell is decided from this grid alone: its neighbours are
    /// counted here and the outcome is written to the new grid, so no cell
    /// sees a neighbour's new state.
    pub fn next_iter(&self) -> (next: Grid)
        requires
            self.wf(),
        ensures
            next.wf(),
            next@ == self@.step(),
    {
        let mut new_grid = Grid::blank(self.width, self.height);
        let mut i: usize = 0;
        while i < self.cells.len()
            invariant
                self.wf(),
                new_grid.wf(),
                new_grid.width == self.width,
                new_grid.height == self.height,
                i <= self.cells@.len(),
                forall|j: int|
                    0 <= j < i ==> (#[trigger] new_grid.cells@[j]).alive == self@.step().alive[j],
            decreases self.cells@.len() - i,
        {
            let cell = &self.cells[i];
            let neighbors = self.get_alive_neighbors(cell);
            let alive = (cell.alive && (neighbors == 2 || neighbors == 3)) || (!cell.alive
                && neighbors == 3);
            let ghost before = new_grid;
            proof {
                self@.lemma_index_of_position(i as int);
                new_grid@.lemma_index_of_position(i as int);
                assert(cell.alive == self@.alive_at(cell.x as int, cell.y as int));
                assert(alive == self@.step().alive[i as int]);
            }
            new_grid.set_cell_alive(cell.x, cell.y, alive);
            proof {
                assert forall|j: int| 0 <= j < i + 1 implies (#[trigger] new_grid.cells@[j]).alive
                    == self@.step().alive[j] by {
                    assert(new_grid@.alive[j] == new_grid.cells@[j].alive);
                    assert(before@.alive[j] == before.cells@[j].alive);
                }
            }
            i += 1;
        }
        proof {
            assert(new_grid@.alive =~= self@.step().alive);
        }
        new_grid
    }
}

impl Clone for Grid {
    /// A copy that shares nothing with this grid: the same dimensions and
    /// the same cells.
    fn clone(&self) -> (copy: Grid)
        ensures
            copy.width == self.width,
            copy.height == self.height,
            copy.cells@ == self.cells@,
    {
        let cells = self.cells.clone();
        assert(cells@ =~= self.cells@);
        Grid { width: self.width, height: self.height, cells }
    }
}

} // verus!
