//! Tile size and walking speed, in pixels.
use vstd::prelude::*;

verus! {

/// The edge length of a tile and the distance an entity covers per frame,
/// both in pixels.
#[derive(Clone, Copy, Debug, PartialEq, Eq, Structural)]
pub struct TileMetrics {
    pub tile_size: i32,
    pub step_speed: i32,
}

impl TileMetrics {
    /// A walk from one cell to the next must land exactly on the target, so
    /// the speed is positive and divides the tile size.
    pub open spec fn wf(self) -> bool {
        &&& 0 < self.step_speed <= self.tile_size
        &&& self.tile_size % self.step_speed == 0
    }

    /// The number of frames a walk from one cell to a neighbouring cell
    /// takes.
    pub open spec fn frames_per_cell(self) -> int {
        self.tile_size / self.step_speed
    }

    /// The metrics with these two values, if they are well-formed.
    pub fn new(tile_size: i32, step_speed: i32) -> (metrics: Option<TileMetrics>)
        ensures
            metrics == if (TileMetrics { tile_size, step_speed }).wf() {
                Some(TileMetrics { tile_size, step_speed })
            } else {
                None
            },
    {
        if 0 < step_speed && step_speed <= tile_size && tile_size % step_speed == 0 {
            Some(TileMetrics { tile_size, step_speed })
        } else {
            None
        }
    }

    /// Whether the speed is positive and divides the tile size.
    pub fn is_wf(&self) -> (ok: bool)
        ensures
            ok == self.wf(),
    {
        0 < self.step_speed && self.step_speed <= self.tile_size && self.tile_size
            % self.step_speed == 0
    }

    /// The number of frames a walk from one cell to a neighbouring cell
    /// takes.
    pub fn frame_count(&self) -> (frames: i32)
        requires
            self.wf(),
        ensures
            frames == self.frames_per_cell(),
            frames * self.step_speed == self.tile_size,
    {
        proof {
            self.lemma_frames_cover_tile();
        }
        self.tile_size / self.step_speed
    }

    /// A whole number of frames, at least one, covers a tile exactly.
    pub proof fn lemma_frames_cover_tile(self)
        requires
            self.wf(),
        ensures
            self.frames_per_cell() >= 1,
            self.frames_per_cell() * self.step_speed == self.tile_size,
    {
        let tile = self.tile_size as int;
        let speed = self.step_speed as int;
        vstd::arithmetic::div_mod::lemma_fundamental_div_mod(tile, speed);
        assert((tile / speed) * speed == speed * (tile / speed)) by (nonlinear_arith);
        assert(tile / speed >= 1) by (nonlinear_arith)
            requires
                0 < speed <= tile,
                (tile / speed) * speed == tile,
        ;
    }
}

} // verus!
