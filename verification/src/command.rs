//! The move command: an entity on its way from its cell to a target cell.
use vstd::prelude::*;
use crate::entity::Entity;
use crate::entity::Placement;
use crate::metrics::TileMetrics;
use crate::point::Direction;
use crate::point::Point;
use crate::point::Vector2I;

verus! {

/// The sign of `i`: -1, 0 or 1.
pub open spec fn signum(i: int) -> int {
    if i > 0 {
        1
    } else if i < 0 {
        -1
    } else {
        0
    }
}

/// The distance one coordinate covers in one frame on its way from `from`
/// to `goal`: the sign of what is left, times the speed.
pub open spec fn stride(from: int, goal: int, step_speed: int) -> int {
    if goal > from {
        step_speed
    } else if goal < from {
        -step_speed
    } else {
        0
    }
}

/// The pixel delta of one frame on the way from `pixel` to `goal`.
pub open spec fn step_delta(pixel: Vector2I, goal: Vector2I, step_speed: int) -> Vector2I {
    Vector2I {
        x: stride(pixel.x, goal.x, step_speed),
        y: stride(pixel.y, goal.y, step_speed),
    }
}

/// The placement after one frame of a move toward the cell `target`: the
/// pixel position has moved by the frame's delta, and if it is now exactly
/// the target's pixel position, the cell is the target.
pub open spec fn advance(
    from: Placement,
    target: Vector2I,
    tile_size: int,
    step_speed: int,
) -> Placement {
    let goal = target.scaled(tile_size);
    let pixel = from.pixel.plus(step_delta(from.pixel, goal, step_speed));
    Placement { cell: if pixel == goal { target } else { from.cell }, pixel }
}

/// The placement after `frames` frames of a move toward the cell `target`.
pub open spec fn advance_n(
    from: Placement,
    target: Vector2I,
    tile_size: int,
    step_speed: int,
    frames: nat,
) -> Placement
    decreases frames,
{
    if frames == 0 {
        from
    } else {
        advance(
            advance_n(from, target, tile_size, step_speed, (frames - 1) as nat),
            target,
            tile_size,
            step_speed,
        )
    }
}

/// Whether `mid` lies between `a` and `b`, ends included.
pub open spec fn between(a: int, mid: int, b: int) -> bool {
    a <= mid <= b || b <= mid <= a
}

/// How far apart two coordinates are.
pub open spec fn distance(a: int, b: int) -> int {
    if a <= b {
        b - a
    } else {
        a - b
    }
}

/// Whether a walk at `step_speed` from `pixel` lands exactly on `goal`: on
/// each axis what is left is a whole number of strides.
pub open spec fn aligned(pixel: Vector2I, goal: Vector2I, step_speed: int) -> bool {
    &&& distance(pixel.x, goal.x) % step_speed == 0
    &&& distance(pixel.y, goal.y) % step_speed == 0
}

/// A move in flight: the entity it is applied to is on its way to
/// `target_cell`. How far it has come is read off the entity each frame.
#[derive(Clone, Copy, Debug, PartialEq, Eq, Structural)]
pub struct MoveCommand {
    pub target_cell: Point,
}

impl MoveCommand {
    /// The pixel position of the target cell.
    pub open spec fn goal(self, metrics: TileMetrics) -> Vector2I {
        self.target_cell@.scaled(metrics.tile_size as int)
    }

    /// The placement one frame of this move leads to.
    pub open spec fn after_step(self, from: Placement, metrics: TileMetrics) -> Placement {
        advance(from, self.target_cell@, metrics.tile_size as int, metrics.step_speed as int)
    }

    /// What one coordinate moves by in one frame.
    fn stride_toward(from: i32, goal: i64, step_speed: i32) -> (d: i32)
        requires
            0 < step_speed,
        ensures
            d == stride(from as int, goal as int, step_speed as int),
    {
        if goal > from as i64 {
            step_speed
        } else if goal < from as i64 {
            -step_speed
        } else {
            0
        }
    }

    /// One frame of the move: the entity's pixel position moves by the
    /// speed toward the target's pixel position, on each axis on which it
    /// has not arrived. If that brings it exactly onto the target's pixel
    /// position, the entity's cell becomes the target.
    ///
    /// The new pixel position must be in the range of `Point`.
    pub fn step<S>(&self, entity: &mut Entity<S>, metrics: &TileMetrics)
        requires
            metrics.wf(),
            self.after_step(old(entity)@, *metrics).pixel.fits(),
        ensures
            final(entity)@ == self.after_step(old(entity)@, *metrics),
            final(entity).strategy() == old(entity).strategy(),
    {
        let goal_x: i64 = Self::scale(self.target_cell.x, metrics.tile_size);
        let goal_y: i64 = Self::scale(self.target_cell.y, metrics.tile_size);
        let pixel = entity.get_pixel();
        let delta = Point {
            x: Self::stride_toward(pixel.x, goal_x, metrics.step_speed),
            y: Self::stride_toward(pixel.y, goal_y, metrics.step_speed),
        };
        entity.move_pixel_by(delta);
        if self.reached_by(entity.get_pixel(), metrics) {
            entity.move_cell_to(self.target_cell);
        }
    }

    /// A cell coordinate times the tile size.
    fn scale(coordinate: i32, tile_size: i32) -> (pixels: i64)
        ensures
            pixels == coordinate * tile_size,
            -0x4000_0000_0000_0000 <= pixels <= 0x4000_0000_0000_0000,
    {
        assert(-0x4000_0000_0000_0000 <= coordinate * tile_size <= 0x4000_0000_0000_0000)
            by (nonlinear_arith)
            requires
                -0x8000_0000 <= coordinate <= 0x7fff_ffff,
                -0x8000_0000 <= tile_size <= 0x7fff_ffff,
        ;
        coordinate as i64 * tile_size as i64
    }

    /// Whether `pixel` is exactly the pixel position of the target cell.
    pub fn reached_by(&self, pixel: Point, metrics: &TileMetrics) -> (there: bool)
        ensures
            there == (pixel@ == self.goal(*metrics)),
    {
        let goal_x: i64 = Self::scale(self.target_cell.x, metrics.tile_size);
        let goal_y: i64 = Self::scale(self.target_cell.y, metrics.tile_size);
        pixel.x as i64 == goal_x && pixel.y as i64 == goal_y
    }

    /// Whether the entity's pixel position is a whole number of strides
    /// away from the target's on each axis.
    pub fn is_aligned<S>(&self, entity: &Entity<S>, metrics: &TileMetrics) -> (ok: bool)
        requires
            metrics.wf(),
        ensures
            ok == aligned(entity@.pixel, self.goal(*metrics), metrics.step_speed as int),
    {
        let goal_x: i64 = Self::scale(self.target_cell.x, metrics.tile_size);
        let goal_y: i64 = Self::scale(self.target_cell.y, metrics.tile_size);
        let pixel = entity.get_pixel();
        Self::span(pixel.x, goal_x) % (metrics.step_speed as i64) == 0 && Self::span(
            pixel.y,
            goal_y,
        ) % (metrics.step_speed as i64) == 0
    }

    /// How far a pixel coordinate is from a goal coordinate.
    fn span(from: i32, goal: i64) -> (d: i64)
        requires
            -0x4000_0000_0000_0000 <= goal <= 0x4000_0000_0000_0000,
        ensures
            d == distance(from as int, goal as int),
    {
        if from as i64 <= goal {
            goal - from as i64
        } else {
            from as i64 - goal
        }
    }

    /// Whether the move is complete: the entity's cell is the target.
    pub fn is_done<S>(&self, entity: &Entity<S>) -> (done: bool)
        ensures
            done == (entity@.cell == self.target_cell@),
    {
        let cell = entity.get_cell();
        cell.x == self.target_cell.x && cell.y == self.target_cell.y
    }
}

/// A stride is the sign of what is left of the way, times the speed.
pub proof fn lemma_stride_is_sign_times_speed(from: int, goal: int, step_speed: int)
    ensures
        stride(from, goal, step_speed) == signum(goal - from) * step_speed,
{
}

/// On one axis, a stride from an aligned position leads to an aligned
/// position that is no farther from the goal and not beyond it.
pub proof fn lemma_stride_keeps_aligned(from: int, goal: int, step_speed: int)
    requires
        0 < step_speed,
        distance(from, goal) % step_speed == 0,
    ensures
        ({
            let next = from + stride(from, goal, step_speed);
            &&& between(from, next, goal)
            &&& distance(next, goal) % step_speed == 0
            &&& distance(next, goal) == if from == goal {
                0
            } else {
                distance(from, goal) - step_speed
            }
        }),
{
    let left = distance(from, goal);
    if left > 0 {
        if left < step_speed {
            vstd::arithmetic::div_mod::lemma_small_mod(left as nat, step_speed as nat);
        }
        vstd::arithmetic::div_mod::lemma_mod_sub_multiples_vanish(left, step_speed);
    }
}

/// A frame of a move from an aligned placement leads to an aligned
/// placement, on the way to the goal and not beyond it.
pub proof fn lemma_step_keeps_aligned(
    from: Placement,
    target: Vector2I,
    tile_size: int,
    step_speed: int,
)
    requires
        0 < step_speed,
        aligned(from.pixel, target.scaled(tile_size), step_speed),
    ensures
        ({
            let goal = target.scaled(tile_size);
            let next = advance(from, target, tile_size, step_speed);
            &&& aligned(next.pixel, goal, step_speed)
            &&& between(from.pixel.x, next.pixel.x, goal.x)
            &&& between(from.pixel.y, next.pixel.y, goal.y)
        }),
{
    let goal = target.scaled(tile_size);
    lemma_stride_keeps_aligned(from.pixel.x, goal.x, step_speed);
    lemma_stride_keeps_aligned(from.pixel.y, goal.y, step_speed);
}

/// The pixel positions of any two cells are a whole number of strides
/// apart on each axis, so a move begun at rest is aligned.
pub proof fn lemma_cells_are_aligned(cell: Vector2I, target: Vector2I, metrics: TileMetrics)
    requires
        metrics.wf(),
    ensures
        aligned(
            cell.scaled(metrics.tile_size as int),
            target.scaled(metrics.tile_size as int),
            metrics.step_speed as int,
        ),
{
    metrics.lemma_frames_cover_tile();
    lemma_multiples_apart(cell.x, target.x, metrics);
    lemma_multiples_apart(cell.y, target.y, metrics);
}

/// On one axis, the pixel coordinates of two cells are a whole number of
/// strides apart.
proof fn lemma_multiples_apart(a: int, b: int, metrics: TileMetrics)
    requires
        metrics.wf(),
    ensures
        distance(a * metrics.tile_size, b * metrics.tile_size) % (metrics.step_speed as int) == 0,
{
    let tile_size = metrics.tile_size as int;
    let step_speed = metrics.step_speed as int;
    let frames = metrics.frames_per_cell();
    metrics.lemma_frames_cover_tile();
    let cells = distance(a, b);
    assert(distance(a * tile_size, b * tile_size) == (cells * frames) * step_speed)
        by (nonlinear_arith)
        requires
            cells == distance(a, b),
            frames * step_speed == tile_size,
            tile_size > 0,
    ;
    vstd::arithmetic::div_mod::lemma_mod_multiples_basic(cells * frames, step_speed);
}

/// A unit step times `k` is `k` along one axis and nothing along the other.
proof fn lemma_unit_scaled(direction: Direction, k: int)
    ensures
        direction.offset().scaled(k) == match direction {
            Direction::Left => Vector2I { x: -k, y: 0 },
            Direction::Right => Vector2I { x: k, y: 0 },
            Direction::Up => Vector2I { x: 0, y: -k },
            Direction::Down => Vector2I { x: 0, y: k },
        },
{
    match direction {
        Direction::Left => {
            assert(direction.offset() == Vector2I { x: -1, y: 0 });
        },
        Direction::Right => {
            assert(direction.offset() == Vector2I { x: 1, y: 0 });
        },
        Direction::Up => {
            assert(direction.offset() == Vector2I { x: 0, y: -1 });
        },
        Direction::Down => {
            assert(direction.offset() == Vector2I { x: 0, y: 1 });
        },
    }
}

/// The pixel position of a neighbouring cell is one tile away.
proof fn lemma_neighbour_goal(cell: Vector2I, direction: Direction, tile_size: int)
    ensures
        cell.plus(direction.offset()).scaled(tile_size) == cell.scaled(tile_size).plus(
            direction.offset().scaled(tile_size),
        ),
{
    let off = direction.offset();
    assert((cell.x + off.x) * tile_size == cell.x * tile_size + off.x * tile_size)
        by (nonlinear_arith);
    assert((cell.y + off.y) * tile_size == cell.y * tile_size + off.y * tile_size)
        by (nonlinear_arith);
}

/// A walk from a cell to a neighbouring cell, begun at rest, takes exactly
/// `tile_size / step_speed` frames. After each frame up to the last the
/// entity has covered that many times the speed in the direction of the
/// walk, so it never passes the target; the cell changes in the frame in
/// which the pixel position reaches the target and in no other; further
/// frames leave the entity where it is.
pub proof fn lemma_walk_to_neighbour(
    start: Placement,
    direction: Direction,
    metrics: TileMetrics,
    frames: nat,
)
    requires
        metrics.wf(),
        start.synced(metrics.tile_size as int),
    ensures
        ({
            let tile_size = metrics.tile_size as int;
            let step_speed = metrics.step_speed as int;
            let target = start.cell.plus(direction.offset());
            let goal = target.scaled(tile_size);
            let now = advance_n(start, target, tile_size, step_speed, frames);
            &&& frames <= metrics.frames_per_cell() ==> now.pixel == start.pixel.plus(
                direction.offset().scaled(frames * step_speed),
            )
            &&& frames >= metrics.frames_per_cell() ==> now.pixel == goal
            &&& between(start.pixel.x, now.pixel.x, goal.x)
            &&& between(start.pixel.y, now.pixel.y, goal.y)
            &&& now.cell == target <==> frames >= metrics.frames_per_cell()
            &&& frames < metrics.frames_per_cell() ==> now.cell == start.cell
        }),
    decreases frames,
{
    let tile_size = metrics.tile_size as int;
    let step_speed = metrics.step_speed as int;
    let n = metrics.frames_per_cell();
    let target = start.cell.plus(direction.offset());
    metrics.lemma_frames_cover_tile();
    lemma_neighbour_goal(start.cell, direction, tile_size);
    lemma_unit_scaled(direction, tile_size);
    lemma_unit_scaled(direction, frames * step_speed);
    assert(target != start.cell) by {
        lemma_unit_scaled(direction, 1);
    }
    if frames == 0 {
        assert(0 * step_speed == 0);
    } else {
        let earlier = (frames - 1) as nat;
        lemma_walk_to_neighbour(start, direction, metrics, earlier);
        lemma_unit_scaled(direction, earlier * step_speed);
        assert(earlier * step_speed + step_speed == frames * step_speed) by (nonlinear_arith)
            requires
                earlier + 1 == frames,
        ;
        if frames <= n {
            assert(earlier * step_speed + step_speed <= n * step_speed) by (nonlinear_arith)
                requires
                    earlier + 1 <= n,
                    step_speed > 0,
            ;
        }
    }
    if frames < n {
        assert(frames * step_speed < n * step_speed) by (nonlinear_arith)
            requires
                frames < n,
                step_speed > 0,
        ;
    }
}

} // verus!
