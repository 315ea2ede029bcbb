//! The entity that walks the grid: a committed cell and a pixel position
//! that trails it while a move is in flight.
use vstd::prelude::*;
use crate::point::Point;
use crate::point::Vector2I;

verus! {

/// Where an entity is: the cell it has committed to, and the pixel position
/// at which it is drawn.
pub struct Placement {
    pub cell: Vector2I,
    pub pixel: Vector2I,
}

impl Placement {
    /// Whether the pixel position is exactly that of the cell, as it is
    /// whenever no move is in flight.
    pub open spec fn synced(self, tile_size: int) -> bool {
        self.pixel == self.cell.scaled(tile_size)
    }
}

/// An entity with its control strategy `S`.
#[derive(Debug)]
pub struct Entity<S> {
    cell: Point,
    pixel: Point,
    strategy: S,
}

impl<S> View for Entity<S> {
    type V = Placement;

    closed spec fn view(&self) -> Placement {
        Placement { cell: self.cell@, pixel: self.pixel@ }
    }
}

impl<S> Entity<S> {
    /// The control strategy this entity was made with.
    pub closed spec fn strategy(self) -> S {
        self.strategy
    }

    /// Both positions of an entity can be held in a `Point`.
    pub proof fn lemma_placement_fits(self)
        ensures
            self@.cell.fits(),
            self@.pixel.fits(),
    {
    }

    /// An entity at the given cell and pixel position. Nothing is checked
    /// here: the two need not agree.
    pub fn new(cell: Point, pixel: Point, strategy: S) -> (entity: Entity<S>)
        ensures
            entity@ == (Placement { cell: cell@, pixel: pixel@ }),
            entity.strategy() == strategy,
    {
        Entity { cell, pixel, strategy }
    }

    /// An entity at rest on `cell`, drawn at that cell's pixel position, if
    /// that position can be held in a `Point`.
    pub fn at_cell(cell: Point, tile_size: i32, strategy: S) -> (entity: Option<Entity<S>>)
        ensures
            entity is Some <==> cell@.scaled(tile_size as int).fits(),
            entity matches Some(e) ==> {
                &&& e@ == (Placement { cell: cell@, pixel: cell@.scaled(tile_size as int) })
                &&& e@.synced(tile_size as int)
                &&& e.strategy() == strategy
            },
    {
        let x = cell.x.checked_mul(tile_size);
        let y = cell.y.checked_mul(tile_size);
        match (x, y) {
            (Some(x), Some(y)) => Some(Entity { cell, pixel: Point { x, y }, strategy }),
            _ => None,
        }
    }

    /// The cell the entity has committed to.
    pub fn get_cell(&self) -> (cell: Point)
        ensures
            cell@ == self@.cell,
    {
        self.cell
    }

    /// The pixel position at which the entity is drawn.
    pub fn get_pixel(&self) -> (pixel: Point)
        ensures
            pixel@ == self@.pixel,
    {
        self.pixel
    }

    /// The control strategy of this entity.
    pub fn get_strategy(&self) -> (strategy: &S)
        ensures
            *strategy == self.strategy(),
    {
        &self.strategy
    }

    /// Commits the entity to `cell`. The pixel position is left alone.
    pub fn move_cell_to(&mut self, cell: Point)
        ensures
            final(self)@ == (Placement { cell: cell@, pixel: old(self)@.pixel }),
            final(self).strategy() == old(self).strategy(),
    {
        self.cell = cell;
    }

    /// Moves the pixel position by `delta`. The cell is left alone.
    pub fn move_pixel_by(&mut self, delta: Point)
        requires
            old(self)@.pixel.plus(delta@).fits(),
        ensures
            final(self)@ == (Placement {
                cell: old(self)@.cell,
                pixel: old(self)@.pixel.plus(delta@),
            }),
            final(self).strategy() == old(self).strategy(),
    {
        self.pixel = self.pixel + delta;
    }
}

} // verus!
