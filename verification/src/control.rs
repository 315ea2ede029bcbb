//! Control strategies: from input and surroundings to the next move.
use vstd::prelude::*;
use crate::command::MoveCommand;
use crate::grid::in_bounds;
use crate::grid::walkable;
use crate::grid::Grid;
use crate::point::Direction;
use crate::point::Point;
use crate::point::Vector2I;

verus! {

/// Which of the four direction keys are pressed in one frame.
#[derive(Clone, Copy, Debug, PartialEq, Eq, Structural)]
pub struct InputState {
    pub is_left_pressed: bool,
    pub is_right_pressed: bool,
    pub is_up_pressed: bool,
    pub is_down_pressed: bool,
}

impl InputState {
    /// Whether the key of `direction` is pressed.
    pub open spec fn pressed(self, direction: Direction) -> bool {
        match direction {
            Direction::Left => self.is_left_pressed,
            Direction::Right => self.is_right_pressed,
            Direction::Up => self.is_up_pressed,
            Direction::Down => self.is_down_pressed,
        }
    }

    /// Whether the key of `direction` is pressed.
    pub fn is_pressed(&self, direction: Direction) -> (down: bool)
        ensures
            down == self.pressed(direction),
    {
        match direction {
            Direction::Left => self.is_left_pressed,
            Direction::Right => self.is_right_pressed,
            Direction::Up => self.is_up_pressed,
            Direction::Down => self.is_down_pressed,
        }
    }

    /// The input of a frame in which no key is pressed.
    pub fn none() -> (input: InputState)
        ensures
            forall|direction: Direction| !input.pressed(direction),
    {
        InputState {
            is_left_pressed: false,
            is_right_pressed: false,
            is_up_pressed: false,
            is_down_pressed: false,
        }
    }
}

/// A way of deciding an idle entity's next move. The decision is a function
/// of the entity's cell, the frame's input and the grid, and a move it
/// decides on leads to a cell of the grid.
pub trait ControlStrategy {
    /// The decision, as a function of what it may depend on.
    spec fn choice(&self, cell: Vector2I, input: InputState, rows: Seq<Seq<i32>>) -> Option<
        MoveCommand,
    >;

    /// A move the strategy decides on leads to a cell of the grid.
    proof fn lemma_choice_in_bounds(&self, cell: Vector2I, input: InputState, rows: Seq<Seq<i32>>)
        ensures
            self.choice(cell, input, rows) matches Some(c) ==> in_bounds(rows, c.target_cell@),
    ;

    /// The move to begin for an entity at rest on `cell`, if any.
    fn decide(&self, cell: Point, input: &InputState, grid: &Grid) -> (command: Option<
        MoveCommand,
    >)
        ensures
            command == self.choice(cell@, *input, grid@),
    ;
}

/// The place of a direction in the order in which the player's keys are
/// looked at: left, right, up, down.
pub open spec fn priority(direction: Direction) -> nat {
    match direction {
        Direction::Left => 0,
        Direction::Right => 1,
        Direction::Up => 2,
        Direction::Down => 3,
    }
}

/// Whether the player may walk from `cell` in `direction`: the key is
/// pressed, and the neighbouring cell exists, can be held in a `Point` and
/// is walkable.
pub open spec fn may_walk(
    cell: Vector2I,
    direction: Direction,
    input: InputState,
    rows: Seq<Seq<i32>>,
) -> bool {
    &&& input.pressed(direction)
    &&& cell.plus(direction.offset()).fits()
    &&& walkable(rows, cell.plus(direction.offset()))
}

/// The direction in which the player walks from `cell`: of the directions
/// in which it may walk, the first in the order left, right, up, down.
pub open spec fn player_direction(
    cell: Vector2I,
    input: InputState,
    rows: Seq<Seq<i32>>,
) -> Option<Direction> {
    if may_walk(cell, Direction::Left, input, rows) {
        Some(Direction::Left)
    } else if may_walk(cell, Direction::Right, input, rows) {
        Some(Direction::Right)
    } else if may_walk(cell, Direction::Up, input, rows) {
        Some(Direction::Up)
    } else if may_walk(cell, Direction::Down, input, rows) {
        Some(Direction::Down)
    } else {
        None
    }
}

/// The player's decision: a move to the neighbouring cell in the direction
/// of `player_direction`, or none.
pub open spec fn player_choice(cell: Vector2I, input: InputState, rows: Seq<Seq<i32>>) -> Option<
    MoveCommand,
> {
    match player_direction(cell, input, rows) {
        Some(direction) => Some(
            MoveCommand { target_cell: Point::holding(cell.plus(direction.offset())) },
        ),
        None => None,
    }
}

/// The move to the neighbouring cell in `direction`, if the player may walk
/// there.
fn try_direction(cell: Point, direction: Direction, input: &InputState, grid: &Grid) -> (command:
    Option<MoveCommand>)
    ensures
        command == if may_walk(cell@, direction, *input, grid@) {
            Some(MoveCommand { target_cell: Point::holding(cell@.plus(direction.offset())) })
        } else {
            None
        },
{
    if !input.is_pressed(direction) {
        return None;
    }
    let delta = direction.delta();
    match (cell.x.checked_add(delta.x), cell.y.checked_add(delta.y)) {
        (Some(x), Some(y)) => {
            if grid.is_walkable(x, y) {
                Some(MoveCommand { target_cell: Point { x, y } })
            } else {
                None
            }
        },
        _ => None,
    }
}

/// The player's control: the keys are looked at in the order left, right,
/// up, down, and the first pressed one whose neighbouring cell is walkable
/// decides the move. No move if no key is pressed or every pressed
/// direction is blocked.
pub fn player_control(cell: Point, input: &InputState, grid: &Grid) -> (command: Option<
    MoveCommand,
>)
    ensures
        command == player_choice(cell@, *input, grid@),
        command matches Some(c) ==> walkable(grid@, c.target_cell@),
{
    if let Some(command) = try_direction(cell, Direction::Left, input, grid) {
        return Some(command);
    }
    if let Some(command) = try_direction(cell, Direction::Right, input, grid) {
        return Some(command);
    }
    if let Some(command) = try_direction(cell, Direction::Up, input, grid) {
        return Some(command);
    }
    try_direction(cell, Direction::Down, input, grid)
}

/// The control strategy of the player's entity.
#[derive(Clone, Copy, Debug, PartialEq, Eq, Structural)]
pub struct PlayerControl;

impl ControlStrategy for PlayerControl {
    open spec fn choice(&self, cell: Vector2I, input: InputState, rows: Seq<Seq<i32>>) -> Option<
        MoveCommand,
    > {
        player_choice(cell, input, rows)
    }

    proof fn lemma_choice_in_bounds(&self, cell: Vector2I, input: InputState, rows: Seq<Seq<i32>>) {
    }

    fn decide(&self, cell: Point, input: &InputState, grid: &Grid) -> (command: Option<
        MoveCommand,
    >) {
        player_control(cell, input, grid)
    }
}

/// The player walks in the direction that comes first, in the order left,
/// right, up, down, among those in which it may walk, and stays where it is
/// exactly if it may walk in none.
pub proof fn lemma_player_priority(cell: Vector2I, input: InputState, rows: Seq<Seq<i32>>)
    ensures
        match player_direction(cell, input, rows) {
            Some(chosen) => {
                &&& may_walk(cell, chosen, input, rows)
                &&& forall|other: Direction| #[trigger]
                    may_walk(cell, other, input, rows) ==> priority(chosen) <= priority(other)
            },
            None => forall|other: Direction| !#[trigger] may_walk(cell, other, input, rows),
        },
{
}

/// The player only ever walks to a walkable cell next to its own, and with
/// no key pressed it does not walk.
pub proof fn lemma_player_walks_to_neighbour(
    cell: Vector2I,
    input: InputState,
    rows: Seq<Seq<i32>>,
)
    ensures
        match player_choice(cell, input, rows) {
            Some(command) => {
                &&& walkable(rows, command.target_cell@)
                &&& command.target_cell@.minus(cell).is_cardinal()
            },
            None => true,
        },
        (forall|direction: Direction| !input.pressed(direction)) ==> player_choice(
            cell,
            input,
            rows,
        ) is None,
{
    match player_direction(cell, input, rows) {
        Some(direction) => {
            assert(Point::holding(cell.plus(direction.offset()))@.minus(cell)
                == direction.offset());
        },
        None => {},
    }
}

} // verus!
