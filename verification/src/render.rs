//! Where things are drawn: tiles in the tileset, cells and sprites on the
//! screen. All in whole pixels; the drawing itself is the renderer's.
use vstd::prelude::*;
use crate::point::Point;
use crate::point::Vector2I;

verus! {

/// An axis-aligned rectangle of pixels, by its top left corner and size.
#[derive(Clone, Copy, Debug, PartialEq, Eq, Structural)]
pub struct PixelRect {
    pub x: i32,
    pub y: i32,
    pub width: i32,
    pub height: i32,
}

/// The number of tiles in one row of a tileset `atlas_width` pixels wide.
pub open spec fn atlas_columns(atlas_width: int, tile_size: int) -> int {
    atlas_width / tile_size
}

/// Whether the tileset has a tile of this index: the tile size is positive,
/// the tileset is at least one tile wide, and the index is not negative.
pub open spec fn has_tile(index: int, atlas_width: int, tile_size: int) -> bool {
    &&& 0 < tile_size <= atlas_width
    &&& 0 <= index
}

/// The top left corner of tile `index` in the tileset. Tiles are counted
/// row by row: the column is `index % columns`, the row `index / columns`.
pub open spec fn tile_origin(index: int, atlas_width: int, tile_size: int) -> Vector2I {
    let columns = atlas_columns(atlas_width, tile_size);
    Vector2I { x: (index % columns) * tile_size, y: (index / columns) * tile_size }
}

/// The square of the tileset that holds tile `index`, if there is such a
/// tile and its corner can be held in a `Point`.
pub fn tile_source_rect(index: i32, atlas_width: i32, tile_size: i32) -> (rect: Option<PixelRect>)
    ensures
        rect is Some <==> has_tile(index as int, atlas_width as int, tile_size as int)
            && tile_origin(index as int, atlas_width as int, tile_size as int).fits(),
        rect matches Some(r) ==> {
            &&& Point { x: r.x, y: r.y }@ == tile_origin(
                index as int,
                atlas_width as int,
                tile_size as int,
            )
            &&& r.width == tile_size
            &&& r.height == tile_size
        },
{
    if tile_size <= 0 || atlas_width < tile_size || index < 0 {
        return None;
    }
    let columns: i64 = (atlas_width / tile_size) as i64;
    assert(columns >= 1) by {
        vstd::arithmetic::div_mod::lemma_div_non_zero(atlas_width as int, tile_size as int);
    }
    let column: i64 = index as i64 % columns;
    let row: i64 = index as i64 / columns;
    assert(0 <= row <= index) by {
        vstd::arithmetic::div_mod::lemma_div_pos_is_pos(index as int, columns as int);
        vstd::arithmetic::div_mod::lemma_div_is_ordered_by_denominator(
            index as int,
            1,
            columns as int,
        );
    }
    assert(0 <= column * tile_size <= atlas_width) by (nonlinear_arith)
        requires
            0 <= column < columns,
            columns == atlas_width as int / tile_size as int,
            0 < tile_size,
    ;
    assert(0 <= row * tile_size <= 0x3fff_ffff_0000_0001) by (nonlinear_arith)
        requires
            0 <= row <= 0x7fff_ffff,
            0 < tile_size <= 0x7fff_ffff,
    ;
    let x: i64 = column * tile_size as i64;
    let y: i64 = row * tile_size as i64;
    if y > 0x7fff_ffff {
        return None;
    }
    Some(PixelRect { x: x as i32, y: y as i32, width: tile_size, height: tile_size })
}

/// The top left corner on the screen of the cell at column `x` of row `y`,
/// and the edge length of a cell there.
pub open spec fn cell_on_screen(cell: Vector2I, tile_size: int, scale: int) -> Vector2I {
    Vector2I { x: cell.x * tile_size * scale, y: cell.y * tile_size * scale }
}

/// The square of the screen on which the cell at `cell` is drawn, each
/// tile pixel `scale` screen pixels wide, if it can be held.
pub fn tile_screen_rect(cell: Point, tile_size: i32, scale: i32) -> (rect: Option<PixelRect>)
    ensures
        rect is Some <==> cell_on_screen(cell@, tile_size as int, scale as int).fits() && i32::MIN
            <= tile_size * scale <= i32::MAX,
        rect matches Some(r) ==> {
            &&& Point { x: r.x, y: r.y }@ == cell_on_screen(cell@, tile_size as int, scale as int)
            &&& r.width == tile_size * scale
            &&& r.height == tile_size * scale
        },
{
    let x = scale_twice(cell.x, tile_size, scale);
    let y = scale_twice(cell.y, tile_size, scale);
    let side = tile_size.checked_mul(scale);
    match (x, y, side) {
        (Some(x), Some(y), Some(side)) => Some(PixelRect { x, y, width: side, height: side }),
        _ => None,
    }
}

/// `coordinate * tile_size * scale`, if it is in the range of `i32`.
fn scale_twice(coordinate: i32, tile_size: i32, scale: i32) -> (scaled: Option<i32>)
    ensures
        scaled is Some <==> i32::MIN <= coordinate * tile_size * scale <= i32::MAX,
        scaled matches Some(v) ==> v == coordinate * tile_size * scale,
{
    assert(-0x4000_0000_0000_0000 <= coordinate * tile_size <= 0x4000_0000_0000_0000)
        by (nonlinear_arith)
        requires
            -0x8000_0000 <= coordinate <= 0x7fff_ffff,
            -0x8000_0000 <= tile_size <= 0x7fff_ffff,
    ;
    let once: i64 = coordinate as i64 * tile_size as i64;
    assert(-0x2000_0000_0000_0000_0000_0000 <= once * scale <= 0x2000_0000_0000_0000_0000_0000)
        by (nonlinear_arith)
        requires
            -0x4000_0000_0000_0000 <= once <= 0x4000_0000_0000_0000,
            -0x8000_0000 <= scale <= 0x7fff_ffff,
    ;
    let twice: i128 = once as i128 * scale as i128;
    if -0x8000_0000 <= twice && twice <= 0x7fff_ffff {
        Some(twice as i32)
    } else {
        None
    }
}

/// Where on the screen a sprite at `pixel` is drawn, each tile pixel
/// `scale` screen pixels wide, if that can be held.
pub fn sprite_screen_position(pixel: Point, scale: i32) -> (position: Option<Point>)
    ensures
        position is Some <==> pixel@.scaled(scale as int).fits(),
        position matches Some(p) ==> p@ == pixel@.scaled(scale as int),
{
    match (pixel.x.checked_mul(scale), pixel.y.checked_mul(scale)) {
        (Some(x), Some(y)) => Some(Point { x, y }),
        _ => None,
    }
}

} // verus!
