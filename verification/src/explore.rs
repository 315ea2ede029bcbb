//! The world an entity walks in, and the controller that runs its moves
//! frame by frame.
use vstd::prelude::*;
use crate::command::aligned;
use crate::command::lemma_cells_are_aligned;
use crate::command::lemma_step_keeps_aligned;
use crate::command::MoveCommand;
use crate::control::ControlStrategy;
use crate::control::InputState;
use crate::entity::Entity;
use crate::entity::Placement;
use crate::grid::in_bounds;
use crate::grid::rectangular;
use crate::grid::width_of;
use crate::grid::Grid;
use crate::metrics::TileMetrics;
use crate::point::Point;
use crate::point::Vector2I;

verus! {

/// What a session holds: the player's entity, the grid it walks on, and the
/// metrics by which cells become pixels.
#[derive(Debug)]
pub struct World<S> {
    pub player: Entity<S>,
    pub map: Grid,
    pub metrics: TileMetrics,
}

/// Whether a grid is small enough for the pixel position of each of its
/// cells, and of the far edge of its last row and column, to be held in a
/// `Point`.
pub open spec fn extent_fits(rows: Seq<Seq<i32>>, tile_size: int) -> bool {
    &&& width_of(rows) * tile_size <= i32::MAX
    &&& rows.len() * tile_size <= i32::MAX
}

/// The pixel position of a cell of a grid that is small enough can be held
/// in a `Point`, and is not negative.
pub proof fn lemma_cell_pixel_fits(rows: Seq<Seq<i32>>, tile_size: int, cell: Vector2I)
    requires
        rectangular(rows),
        0 < tile_size,
        extent_fits(rows, tile_size),
        in_bounds(rows, cell),
    ensures
        cell.scaled(tile_size).fits(),
        0 <= cell.scaled(tile_size).x,
        0 <= cell.scaled(tile_size).y,
{
    let width = width_of(rows) as int;
    let height = rows.len() as int;
    assert(rows[cell.y].len() == rows[0].len());
    assert(0 <= cell.x * tile_size <= width * tile_size) by (nonlinear_arith)
        requires
            0 <= cell.x < width,
            0 < tile_size,
    ;
    assert(0 <= cell.y * tile_size <= height * tile_size) by (nonlinear_arith)
        requires
            0 <= cell.y < height,
            0 < tile_size,
    ;
}

impl<S> World<S> {
    /// The metrics are well-formed, the grid is rectangular and small
    /// enough for its pixel positions to be held in a `Point`, and the
    /// player stands on a cell of the grid.
    pub open spec fn wf(self) -> bool {
        &&& self.metrics.wf()
        &&& rectangular(self.map@)
        &&& extent_fits(self.map@, self.metrics.tile_size as int)
        &&& in_bounds(self.map@, self.player@.cell)
    }

    /// Whether `wf` holds.
    pub fn is_wf(&self) -> (ok: bool)
        ensures
            ok == self.wf(),
    {
        let cell = self.player.get_cell();
        self.metrics.is_wf() && Self::extent_is_small(&self.map, self.metrics.tile_size)
            && self.map.contains(cell.x, cell.y)
    }

    /// Whether `extent_fits` holds of a grid and a positive tile size.
    fn extent_is_small(map: &Grid, tile_size: i32) -> (ok: bool)
        requires
            0 < tile_size,
        ensures
            rectangular(map@),
            ok == extent_fits(map@, tile_size as int),
    {
        let width: usize = map.width();
        let height: usize = map.height();
        Self::side_is_small(width, tile_size) && Self::side_is_small(height, tile_size)
    }

    /// Whether `cells` tiles in a row end within the range of `i32`.
    fn side_is_small(cells: usize, tile_size: i32) -> (ok: bool)
        requires
            0 < tile_size,
        ensures
            ok == (cells * tile_size <= i32::MAX),
    {
        if cells > 0x7fff_ffff {
            assert(cells * tile_size > i32::MAX) by (nonlinear_arith)
                requires
                    cells > 0x7fff_ffff,
                    tile_size >= 1,
            ;
            false
        } else {
            assert(0 <= cells * tile_size <= 0x3fff_ffff_0000_0001) by (nonlinear_arith)
                requires
                    0 <= cells <= 0x7fff_ffff,
                    0 < tile_size <= 0x7fff_ffff,
            ;
            cells as i64 * tile_size as i64 <= 0x7fff_ffff
        }
    }

    /// The world of these three, if it is well-formed.
    pub fn new(player: Entity<S>, map: Grid, metrics: TileMetrics) -> (world: Option<World<S>>)
        ensures
            world == if (World { player, map, metrics }).wf() {
                Some(World { player, map, metrics })
            } else {
                None
            },
    {
        let world = World { player, map, metrics };
        if world.is_wf() {
            Some(world)
        } else {
            None
        }
    }

    /// The world in which the player stands at rest on `cell`, if the
    /// metrics are well-formed, the grid is small enough for its pixel
    /// positions to be held in a `Point`, and `cell` is a cell of the grid.
    /// An idle controller is steady with such a world.
    pub fn at_rest(cell: Point, strategy: S, map: Grid, metrics: TileMetrics) -> (world: Option<
        World<S>,
    >)
        ensures
            world is Some <==> {
                &&& metrics.wf()
                &&& extent_fits(map@, metrics.tile_size as int)
                &&& in_bounds(map@, cell@)
            },
            world matches Some(w) ==> {
                &&& ExploreController::Idle.steady(w)
                &&& w.player@ == (Placement {
                    cell: cell@,
                    pixel: cell@.scaled(metrics.tile_size as int),
                })
                &&& w.player.strategy() == strategy
                &&& w.map == map
                &&& w.metrics == metrics
            },
    {
        if !metrics.is_wf() || !Self::extent_is_small(&map, metrics.tile_size) || !map.contains(
            cell.x,
            cell.y,
        ) {
            return None;
        }
        proof {
            lemma_cell_pixel_fits(map@, metrics.tile_size as int, cell@);
        }
        match Entity::at_cell(cell, metrics.tile_size, strategy) {
            Some(player) => Some(World { player, map, metrics }),
            None => None,
        }
    }
}

/// The per-frame controller of a walk. It is idle, or it holds the one move
/// that is in flight.
#[derive(Clone, Copy, Debug, PartialEq, Eq, Structural)]
pub enum ExploreController {
    Idle,
    Moving(MoveCommand),
}

impl ExploreController {
    /// The move in flight, if any.
    pub open spec fn command(self) -> Option<MoveCommand> {
        match self {
            ExploreController::Idle => None,
            ExploreController::Moving(command) => Some(command),
        }
    }

    /// What holds of a controller and its world between frames. The world
    /// is well-formed. While idle, the player's pixel position is exactly
    /// that of its cell. While a move is in flight, its target is a cell of
    /// the grid that the player has not reached, and the player's pixel
    /// position is a whole number of strides away from the target's.
    pub open spec fn steady<S>(self, world: World<S>) -> bool {
        &&& world.wf()
        &&& match self {
            ExploreController::Idle => world.player@.synced(world.metrics.tile_size as int),
            ExploreController::Moving(command) => {
                &&& in_bounds(world.map@, command.target_cell@)
                &&& world.player@.cell != command.target_cell@
                &&& aligned(
                    world.player@.pixel,
                    command.goal(world.metrics),
                    world.metrics.step_speed as int,
                )
            },
        }
    }

    /// Whether `steady` holds.
    pub fn is_steady<S>(&self, world: &World<S>) -> (ok: bool)
        ensures
            ok == self.steady(*world),
    {
        if !world.is_wf() {
            return false;
        }
        match self {
            ExploreController::Idle => {
                let at_rest = MoveCommand { target_cell: world.player.get_cell() };
                let pixel = world.player.get_pixel();
                at_rest.reached_by(pixel, &world.metrics)
            },
            ExploreController::Moving(command) => {
                let cell = world.player.get_cell();
                let target = command.target_cell;
                world.map.contains(target.x, target.y) && !(cell.x == target.x && cell.y
                    == target.y) && command.is_aligned(&world.player, &world.metrics)
            },
        }
    }

    /// The move that a frame works on: the one in flight, or else the one
    /// that the player's control strategy decides on.
    pub open spec fn command_for_frame<S: ControlStrategy>(
        self,
        world: World<S>,
        input: InputState,
    ) -> Option<MoveCommand> {
        match self {
            ExploreController::Moving(command) => Some(command),
            ExploreController::Idle => world.player.strategy().choice(
                world.player@.cell,
                input,
                world.map@,
            ),
        }
    }

    /// The player's placement after a frame: one step of the frame's move,
    /// or no change without a move.
    pub open spec fn placement_after<S: ControlStrategy>(
        self,
        world: World<S>,
        input: InputState,
    ) -> Placement {
        match self.command_for_frame(world, input) {
            Some(command) => command.after_step(world.player@, world.metrics),
            None => world.player@,
        }
    }

    /// Whether a frame can be performed: the metrics are well-formed, and
    /// the step of the frame's move, if there is a move, leads to a pixel
    /// position that can be held in a `Point`.
    pub open spec fn frame_fits<S: ControlStrategy>(
        self,
        world: World<S>,
        input: InputState,
    ) -> bool {
        &&& world.metrics.wf()
        &&& match self.command_for_frame(world, input) {
            Some(command) => command.after_step(world.player@, world.metrics).pixel.fits(),
            None => true,
        }
    }

    /// The controller after a frame: idle if there was no move or the
    /// frame's step completed it, and else holding the frame's move.
    pub open spec fn after_frame<S: ControlStrategy>(
        self,
        world: World<S>,
        input: InputState,
    ) -> ExploreController {
        match self.command_for_frame(world, input) {
            Some(command) => if self.placement_after(world, input).cell == command.target_cell@ {
                ExploreController::Idle
            } else {
                ExploreController::Moving(command)
            },
            None => ExploreController::Idle,
        }
    }

    /// A frame of a steady controller can be performed, and the player is
    /// then still on its way: where the frame has a move, its target is a
    /// cell of the grid, and the player's new pixel position is a whole
    /// number of strides away from the target's.
    pub proof fn lemma_steady_frame_fits<S: ControlStrategy>(
        self,
        world: World<S>,
        input: InputState,
    )
        requires
            self.steady(world),
        ensures
            self.frame_fits(world, input),
            self.command_for_frame(world, input) matches Some(c) ==> {
                &&& in_bounds(world.map@, c.target_cell@)
                &&& aligned(
                    self.placement_after(world, input).pixel,
                    c.goal(world.metrics),
                    world.metrics.step_speed as int,
                )
            },
    {
        let tile_size = world.metrics.tile_size as int;
        let step_speed = world.metrics.step_speed as int;
        match self.command_for_frame(world, input) {
            Some(command) => {
                if self == ExploreController::Idle {
                    world.player.strategy().lemma_choice_in_bounds(
                        world.player@.cell,
                        input,
                        world.map@,
                    );
                    lemma_cells_are_aligned(world.player@.cell, command.target_cell@, world.metrics);
                }
                lemma_cell_pixel_fits(world.map@, tile_size, command.target_cell@);
                world.player.lemma_placement_fits();
                lemma_step_keeps_aligned(world.player@, command.target_cell@, tile_size, step_speed);
            },
            None => {},
        }
    }

    /// A frame keeps a steady controller steady: whatever the input, the
    /// controller after the frame is steady with the world in which the
    /// player has the frame's new placement. So whenever the controller is
    /// idle, the player's pixel position is exactly that of its cell.
    pub proof fn lemma_frame_keeps_steady<S: ControlStrategy>(
        self,
        world: World<S>,
        input: InputState,
        next: World<S>,
    )
        requires
            self.steady(world),
            next.player@ == self.placement_after(world, input),
            next.map == world.map,
            next.metrics == world.metrics,
        ensures
            self.after_frame(world, input).steady(next),
            self.after_frame(world, input) == ExploreController::Idle ==> next.player@.synced(
                next.metrics.tile_size as int,
            ),
    {
        self.lemma_steady_frame_fits(world, input);
    }

    /// A controller with no move in flight.
    pub fn new() -> (controller: ExploreController)
        ensures
            controller == ExploreController::Idle,
    {
        ExploreController::Idle
    }

    /// Whether no move is in flight.
    pub fn is_idle(&self) -> (idle: bool)
        ensures
            idle == (*self == ExploreController::Idle),
    {
        match self {
            ExploreController::Idle => true,
            ExploreController::Moving(_) => false,
        }
    }

    /// The move in flight, if any.
    pub fn active_command(&self) -> (command: Option<MoveCommand>)
        ensures
            command == self.command(),
    {
        match self {
            ExploreController::Idle => None,
            ExploreController::Moving(command) => Some(*command),
        }
    }

    /// One frame. An idle controller asks the player's control strategy for
    /// a move and, if it gets one, takes it up. A controller with a move,
    /// taken up in this frame or before, performs one step of it, and goes
    /// idle in the same frame if that step completed the move.
    ///
    /// A steady controller can always perform a frame, and is steady after
    /// it: in particular, whenever it is idle again, the player's pixel
    /// position is exactly that of its cell. Without steadiness the frame's
    /// step must lead to a pixel position that can be held in a `Point`.
    pub fn update<S: ControlStrategy>(&mut self, world: &mut World<S>, input: &InputState)
        requires
            old(self).steady(*old(world)) || old(self).frame_fits(*old(world), *input),
        ensures
            old(self).steady(*old(world)) ==> final(self).steady(*final(world)),
            old(self).steady(*old(world)) && *final(self) == ExploreController::Idle
                ==> final(world).player@.synced(final(world).metrics.tile_size as int),
            *final(self) == old(self).after_frame(*old(world), *input),
            final(world).player@ == old(self).placement_after(*old(world), *input),
            final(world).player.strategy() == old(world).player.strategy(),
            final(world).map == old(world).map,
            final(world).metrics == old(world).metrics,
    {
        let command = match self {
            ExploreController::Moving(command) => Some(*command),
            ExploreController::Idle => {
                let cell = world.player.get_cell();
                world.player.get_strategy().decide(cell, input, &world.map)
            },
        };
        match command {
            None => {},
            Some(command) => {
                proof {
                    if self.steady(*world) {
                        self.lemma_steady_frame_fits(*world, *input);
                    }
                }
                let metrics = world.metrics;
                command.step(&mut world.player, &metrics);
                if command.is_done(&world.player) {
                    *self = ExploreController::Idle;
                } else {
                    *self = ExploreController::Moving(command);
                }
            },
        }
    }
}

} // verus!
