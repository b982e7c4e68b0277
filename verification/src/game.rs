//! The simulation state that a front end drives.
//!
//! A [`Game`] owns the one live grid together with the settings that the
//! user changes while the simulation runs. The front end polls its devices
//! and hands over what it saw as plain values; every decision about the
//! state is taken here.

use vstd::prelude::*;
use crate::board::Board;
use crate::cell::Cell;
use crate::grid::Grid;
use crate::grid::GridError;
use crate::utils::at_least_one;
use crate::utils::min_one;

verus! {

/// The side of a cell in world units.
pub const CELL_SIZE: i32 = 10;

/// The smallest side a grid is resized to with the wheel.
pub const MIN_GRID_SIDE: usize = 10;

/// The largest side a grid is resized to with the wheel.
pub const MAX_GRID_SIDE: usize = 100000;

/// The commands that were given since the last poll.
///
/// When several are given at once only the first in the order of the fields
/// is carried out.
#[derive(Clone, Copy, Debug, PartialEq, Eq, Structural)]
pub struct KeyPresses {
    /// Toggle between paused and running.
    pub pause: bool,
    /// Kill every cell.
    pub clear: bool,
    /// Give every cell a random state.
    pub randomize: bool,
    /// Toggle the gaps between drawn cells.
    pub grid_lines: bool,
}

/// What the devices reported since the last poll.
#[derive(Clone, Copy, Debug, PartialEq, Eq, Structural)]
pub struct Input {
    pub keys: KeyPresses,
    /// Whether the wheel moved at all, however little.
    pub wheel_moved: bool,
    /// The wheel's movement in whole notches, rounded toward zero.
    pub wheel: i32,
    /// Ten times the wheel's movement, rounded toward zero, and zero for a
    /// movement backwards.
    pub wheel_tenfold: usize,
    /// Whether the modifier that selects the zoom is held.
    pub control: bool,
    /// Whether the modifier that selects the brush size is held.
    pub shift: bool,
    /// Whether the modifier that selects the grid size is held.
    pub alt: bool,
}

/// What a movement of the wheel was applied to.
#[derive(Clone, Copy, Debug, PartialEq, Eq, Structural)]
pub enum Adjustment {
    /// The wheel did not move.
    Nothing,
    /// The zoom, which the front end keeps: it is for the caller to apply.
    Zoom,
    /// The brush size.
    Brush,
    /// The size of the grid.
    Resize,
    /// The number of generations per second.
    Rate,
}

/// The simulation state.
pub struct Game {
    pub paused: bool,
    pub grid: Grid,
    pub iterations_second: i32,
    pub brush_size: i32,
    pub draw_grid: bool,
    pub width: i32,
    pub height: i32,
}

/// The simulation state with the grid seen as its board.
pub struct GameView {
    pub paused: bool,
    pub board: Board,
    pub iterations_second: int,
    pub brush_size: int,
    pub draw_grid: bool,
    pub width: int,
    pub height: int,
}

impl View for Game {
    type V = GameView;

    open spec fn view(&self) -> GameView {
        GameView {
            paused: self.paused,
            board: self.grid@,
            iterations_second: self.iterations_second as int,
            brush_size: self.brush_size as int,
            draw_grid: self.draw_grid,
            width: self.width as int,
            height: self.height as int,
        }
    }
}

/// `value + delta`, kept within `1..=i32::MAX`.
pub open spec fn nudged(value: int, delta: int) -> int {
    if value + delta > i32::MAX {
        i32::MAX as int
    } else {
        at_least_one(value + delta)
    }
}

/// The side of the grid after the wheel asked for `tenfold` more, kept
/// within the sides that the wheel can reach.
pub open spec fn resized_side(side: int, tenfold: int) -> int {
    if side + tenfold < MIN_GRID_SIDE {
        MIN_GRID_SIDE as int
    } else if side + tenfold > MAX_GRID_SIDE {
        MAX_GRID_SIDE as int
    } else {
        side + tenfold
    }
}

/// Whether a brush of the given size, held at `(mouse_x, mouse_y)` in world
/// units, reaches the cell at `(cell_x, cell_y)`.
///
/// A cell occupies [`CELL_SIZE`] units from its corner in both directions,
/// and a brush of size `n` reaches `n - 1` units beyond the cell on every
/// side.
pub open spec fn brush_reaches(
    brush_size: int,
    cell_x: int,
    cell_y: int,
    mouse_x: int,
    mouse_y: int,
) -> bool {
    let reach = brush_size - 1;
    let left = cell_x * CELL_SIZE;
    let top = cell_y * CELL_SIZE;
    &&& left - reach <= mouse_x <= left + CELL_SIZE + reach - 1
    &&& top - reach <= mouse_y <= top + CELL_SIZE + reach - 1
}

/// What a movement of the wheel is applied to, given the modifiers held.
pub open spec fn wheel_target(input: Input) -> Adjustment {
    if !input.wheel_moved {
        Adjustment::Nothing
    } else if input.control {
        Adjustment::Zoom
    } else if input.shift {
        Adjustment::Brush
    } else if input.alt {
        Adjustment::Resize
    } else {
        Adjustment::Rate
    }
}

impl GameView {
    /// Whether `after` is a state that the given commands may lead to from
    /// this one.
    ///
    /// Every command but one fixes the state that follows. Randomizing fixes
    /// everything but the cells' states, of which nothing is said.
    pub open spec fn keys_lead_to(self, keys: KeyPresses, after: GameView) -> bool {
        if keys.pause {
            after == (GameView { paused: !self.paused, ..self })
        } else if keys.clear {
            after == (GameView { board: self.board.cleared(), ..self })
        } else if keys.randomize {
            &&& after.board.wf()
            &&& after.board.same_shape(self.board)
            &&& after == (GameView { board: after.board, ..self })
        } else if keys.grid_lines {
            after == (GameView { draw_grid: !self.draw_grid, ..self })
        } else {
            after == self
        }
    }

    /// The state after the wheel's movement has been applied to this one.
    ///
    /// A resize to a side that this machine cannot hold leaves the grid as
    /// it is.
    pub open spec fn after_wheel(self, input: Input) -> GameView {
        match wheel_target(input) {
            Adjustment::Nothing | Adjustment::Zoom => self,
            Adjustment::Brush => GameView {
                brush_size: nudged(self.brush_size, input.wheel as int),
                ..self
            },
            Adjustment::Resize => {
                let side = resized_side(self.board.width as int, input.wheel_tenfold as int);
                if Grid::dimension_fault(side as usize, side as usize) is None {
                    GameView { board: Board::blank(side as nat, side as nat), ..self }
                } else {
                    self
                }
            },
            Adjustment::Rate => GameView {
                iterations_second: nudged(self.iterations_second, input.wheel as int),
                ..self
            },
        }
    }

    /// The state after the brush has passed over the cell at `(x, y)`.
    ///
    /// A cell that the brush reaches is brought to life when the first
    /// button is down, and killed when only the second is.
    pub open spec fn after_brush(
        self,
        x: int,
        y: int,
        mouse_x: int,
        mouse_y: int,
        left_down: bool,
        right_down: bool,
    ) -> GameView {
        if brush_reaches(self.brush_size, x, y, mouse_x, mouse_y) && (left_down || right_down) {
            GameView { board: self.board.with_cell(x, y, left_down), ..self }
        } else {
            self
        }
    }

    /// The state one tick later: the next generation unless paused.
    pub open spec fn after_tick(self) -> GameView {
        if self.paused {
            self
        } else {
            GameView { board: self.board.step(), ..self }
        }
    }
}

/// `value + delta`, kept within `1..=i32::MAX`.
fn nudge(value: i32, delta: i32) -> (r: i32)
    ensures
        r == nudged(value as int, delta as int),
{
    let sum: i64 = value as i64 + delta as i64;
    if sum > i32::MAX as i64 {
        i32::MAX
    } else if sum < i32::MIN as i64 {
        1
    } else {
        min_one(sum as i32)
    }
}

impl Game {
    /// The grid is well-formed, and the rate and the brush size are at
    /// least 1.
    pub open spec fn wf(&self) -> bool {
        &&& self.grid.wf()
        &&& self.iterations_second >= 1
        &&& self.brush_size >= 1
    }

    /// Whether the state is well-formed, for callers that built or changed
    /// it through its fields.
    pub fn is_well_formed(&self) -> (ok: bool)
        ensures
            ok == self.wf(),
    {
        self.iterations_second >= 1 && self.brush_size >= 1 && self.grid.is_well_formed()
    }

    /// The state at start-up for a window of the given size: a dead grid of
    /// 100 by 100 cells, paused, at ten generations per second, with the
    /// smallest brush and with gaps between drawn cells.
    pub fn init(width: i32, height: i32) -> (game: Game)
        ensures
            game.wf(),
            game@ == (GameView {
                paused: true,
                board: Board::blank(100, 100),
                iterations_second: 10,
                brush_size: 1,
                draw_grid: true,
                width: width as int,
                height: height as int,
            }),
    {
        Game {
            grid: Grid::blank(100, 100),
            iterations_second: 10,
            paused: true,
            brush_size: 1,
            draw_grid: true,
            width,
            height,
        }
    }

    /// Carries out the first of the given commands, if any.
    pub fn handle_keys(&mut self, keys: &KeyPresses)
        requires
            old(self).wf(),
        ensures
            final(self).wf(),
            old(self)@.keys_lead_to(*keys, final(self)@),
    {
        if keys.pause {
            self.paused = !self.paused;
            return ;
        }
        if keys.clear {
            self.grid.clear();
            return ;
        }
        if keys.randomize {
            self.grid.randomize();
            return ;
        }
        if keys.grid_lines {
            self.draw_grid = !self.draw_grid;
            return ;
        }
    }

    /// Applies the wheel's movement to what the modifiers select.
    ///
    /// The wheel changes the zoom with the first modifier held, the brush
    /// size with the second, the size of the grid with the third and the
    /// rate with none; an earlier modifier wins over a later one. The zoom
    /// is the caller's to change: the result says when to. A new brush size
    /// or rate is kept within `1..=i32::MAX`; a new grid is a dead square
    /// whose side is kept within [`MIN_GRID_SIDE`] and [`MAX_GRID_SIDE`].
    pub fn handle_wheel(&mut self, input: &Input) -> (adjusted: Adjustment)
        requires
            old(self).wf(),
        ensures
            final(self).wf(),
            adjusted == wheel_target(*input),
            final(self)@ == old(self)@.after_wheel(*input),
    {
        if !input.wheel_moved {
            Adjustment::Nothing
        } else if input.control {
            Adjustment::Zoom
        } else if input.shift {
            self.brush_size = nudge(self.brush_size, input.wheel);
            Adjustment::Brush
        } else if input.alt {
            let wanted = self.grid.width.saturating_add(input.wheel_tenfold);
            let side = if wanted < MIN_GRID_SIDE {
                MIN_GRID_SIDE
            } else if wanted > MAX_GRID_SIDE {
                MAX_GRID_SIDE
            } else {
                wanted
            };
            let _ = self.resize(side, side);
            Adjustment::Resize
        } else {
            self.iterations_second = nudge(self.iterations_second, input.wheel);
            Adjustment::Rate
        }
    }

    /// Applies one poll of the devices: first the commands, then the wheel.
    ///
    /// The state afterwards is what [`Game::handle_wheel`] makes of a state
    /// that [`Game::handle_keys`] may have left.
    pub fn handle_input(&mut self, input: &Input) -> (adjusted: Adjustment)
        requires
            old(self).wf(),
        ensures
            final(self).wf(),
            adjusted == wheel_target(*input),
            exists|between: GameView|
                old(self)@.keys_lead_to(input.keys, between) && final(self)@ == between.after_wheel(
                    *input,
                ),
    {
        self.handle_keys(&input.keys);
        let ghost between = self@;
        let adjusted = self.handle_wheel(input);
        proof {
            assert(old(self)@.keys_lead_to(input.keys, between));
            assert(self@ == between.after_wheel(*input));
        }
        adjusted
    }

    /// Passes the brush, held at `(mouse_x, mouse_y)` in world units, over
    /// `cell`'s position, and says whether the brush reaches it.
    ///
    /// A cell that the brush reaches is brought to life when `left_down`,
    /// and killed when `right_down` alone.
    pub fn paint(
        &mut self,
        cell: &Cell,
        mouse_x: i32,
        mouse_y: i32,
        left_down: bool,
        right_down: bool,
    ) -> (hovered: bool)
        requires
            old(self).wf(),
        ensures
            final(self).wf(),
            hovered == brush_reaches(
                old(self).brush_size as int,
                cell.x as int,
                cell.y as int,
                mouse_x as int,
                mouse_y as int,
            ),
            final(self)@ == old(self)@.after_brush(
                cell.x as int,
                cell.y as int,
                mouse_x as int,
                mouse_y as int,
                left_down,
                right_down,
            ),
    {
        proof {
            assert(cell.x * CELL_SIZE == cell.x * 10 && cell.y * CELL_SIZE == cell.y * 10)
                by (nonlinear_arith)
                requires
                    CELL_SIZE == 10,
            ;
        }
        let reach: i64 = self.brush_size as i64 - 1;
        let left: i64 = cell.x as i64 * CELL_SIZE as i64;
        let top: i64 = cell.y as i64 * CELL_SIZE as i64;
        let high: i64 = CELL_SIZE as i64 + reach - 1;
        let mx: i64 = mouse_x as i64;
        let my: i64 = mouse_y as i64;
        let hovered = mx >= left - reach && mx <= left + high && my >= top - reach && my <= top
            + high;
        if hovered {
            if left_down {
                self.grid.set_cell_alive(cell.x, cell.y, true);
            } else if right_down {
                self.grid.set_cell_alive(cell.x, cell.y, false);
            }
        }
        hovered
    }

    /// Advances the grid by one generation unless the simulation is paused.
    pub fn tick(&mut self)
        requires
            old(self).wf(),
        ensures
            final(self).wf(),
            final(self)@ == old(self)@.after_tick(),
    {
        if !self.paused {
            self.grid = self.grid.next_iter();
        }
    }

    /// A copy of the live grid, for a reader to keep while the simulation
    /// moves on.
    pub fn snapshot(&self) -> (copy: Grid)
        requires
            self.wf(),
        ensures
            copy.wf(),
            copy@ == self.grid@,
            copy.cells@ == self.grid.cells@,
    {
        self.grid.clone()
    }

    /// Replaces the grid by a dead one of the given dimensions.
    ///
    /// Dimensions that [`Grid::new`] rejects are rejected here, and the
    /// state is then left as it is.
    pub fn resize(&mut self, width: usize, height: usize) -> (r: Result<(), GridError>)
        requires
            old(self).wf(),
        ensures
            final(self).wf(),
            match r {
                Ok(_) => {
                    &&& Grid::dimension_fault(width, height) is None
                    &&& final(self)@ == (GameView {
                        board: Board::blank(width as nat, height as nat),
                        ..old(self)@
                    })
                },
                Err(e) => {
                    &&& Grid::dimension_fault(width, height) == Some(e)
                    &&& final(self)@ == old(self)@
                },
            },
    {
        match Grid::new(width, height) {
            Ok(grid) => {
                self.grid = grid;
                Ok(())
            },
            Err(e) => Err(e),
        }
    }

    /// Pauses or resumes the simulation.
    pub fn set_paused(&mut self, paused: bool)
        requires
            old(self).wf(),
        ensures
            final(self).wf(),
            final(self)@ == (GameView { paused, ..old(self)@ }),
    {
        self.paused = paused;
    }

    /// Sets the number of generations per second; a rate below 1 becomes 1.
    pub fn set_iterations_per_second(&mut self, rate: i32)
        requires
            old(self).wf(),
        ensures
            final(self).wf(),
            final(self)@ == (GameView {
                iterations_second: at_least_one(rate as int),
                ..old(self)@
            }),
    {
        self.iterations_second = min_one(rate);
    }
}

} // verus!
