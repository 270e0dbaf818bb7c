//! Integer geometry of the quads that stand for map tiles.
//!
//! A tile at grid position `(x, y)` covers the square
//! `[x * scale, x * scale + scale] x [y * scale, y * scale + scale]` of the map.
//! Its texture coordinates are the corners of the unit square, mirrored and
//! rotated as the tile's flags say; the third texture coordinate selects the
//! layer of the tile-set array texture.

use vstd::prelude::*;

verus! {

/// Tile flag: mirror the tile horizontally.
pub const TILE_FLAG_XFLIP: u8 = 1;
/// Tile flag: mirror the tile vertically.
pub const TILE_FLAG_YFLIP: u8 = 2;
/// Tile flag: the tile is fully opaque.
pub const TILE_FLAG_OPAQUE: u8 = 4;
/// Tile flag: rotate the tile by 90 degrees.
pub const TILE_FLAG_ROTATE: u8 = 8;

/// The edge length of one tile in map units.
pub const TILE_SCALE: i32 = 32;

/// How far the quad of a speedup tile is shrunk on each side.
pub const SPEEDUP_SHRINK: i32 = 2;

/// A corner position of a tile quad, in map units.
#[derive(Copy, Clone, PartialEq, Eq, Structural)]
pub struct TileVertex {
    pub x: i32,
    pub y: i32,
}

/// The four corners of a tile quad.
#[derive(Copy, Clone, PartialEq, Eq, Structural)]
pub struct SGraphicTile {
    pub top_left: TileVertex,
    pub top_right: TileVertex,
    pub bottom_right: TileVertex,
    pub bottom_left: TileVertex,
}

/// A texture coordinate of a tile corner: `x` and `y` on the unit square,
/// `z` the index of the tile in the tile set.
#[derive(Copy, Clone, PartialEq, Eq, Structural)]
pub struct TileTexCoord {
    pub x: u8,
    pub y: u8,
    pub z: u8,
}

/// The texture coordinates of the four corners of a tile quad.
#[derive(Copy, Clone, PartialEq, Eq, Structural)]
pub struct SGraphicTileTexureCoords {
    pub tex_coord_top_left: TileTexCoord,
    pub tex_coord_top_right: TileTexCoord,
    pub tex_coord_bottom_right: TileTexCoord,
    pub tex_coord_bottom_left: TileTexCoord,
}

pub open spec fn has_flag(flags: u8, flag: u8) -> bool {
    flags & flag != 0
}

/// x coordinate of corner `i` (0 top-left, 1 top-right, 2 bottom-right,
/// 3 bottom-left) of the unit square.
pub open spec fn unit_corner_x(i: int) -> u8 {
    if i == 1 || i == 2 { 1 } else { 0 }
}

/// y coordinate of corner `i` of the unit square.
pub open spec fn unit_corner_y(i: int) -> u8 {
    if i == 2 || i == 3 { 1 } else { 0 }
}

/// The corner of the flipped unit square that corner `i` takes when the tile
/// is rotated: every corner takes the one before it in clockwise order.
pub open spec fn source_corner(flags: u8, i: int) -> int {
    if has_flag(flags, TILE_FLAG_ROTATE) { (i + 3) % 4 } else { i }
}

/// Texture x coordinate of corner `i` of a tile with these flags.
pub open spec fn tex_corner_x(flags: u8, i: int) -> u8 {
    let b = unit_corner_x(source_corner(flags, i));
    if has_flag(flags, TILE_FLAG_XFLIP) { (1 - b) as u8 } else { b }
}

/// Texture y coordinate of corner `i` of a tile with these flags.
pub open spec fn tex_corner_y(flags: u8, i: int) -> u8 {
    let b = unit_corner_y(source_corner(flags, i));
    if has_flag(flags, TILE_FLAG_YFLIP) { (1 - b) as u8 } else { b }
}

pub open spec fn tex_coord(flags: u8, i: int, z: u8) -> TileTexCoord {
    TileTexCoord { x: tex_corner_x(flags, i), y: tex_corner_y(flags, i), z }
}

/// The texture coordinates of a tile with these flags and tile-set index.
pub open spec fn tile_tex_coords(flags: u8, index: u8) -> SGraphicTileTexureCoords {
    SGraphicTileTexureCoords {
        tex_coord_top_left: tex_coord(flags, 0, index),
        tex_coord_top_right: tex_coord(flags, 1, index),
        tex_coord_bottom_right: tex_coord(flags, 2, index),
        tex_coord_bottom_left: tex_coord(flags, 3, index),
    }
}

/// The quad spanning `[x0, x1] x [y0, y1]`.
pub open spec fn rect_tile(x0: int, y0: int, x1: int, y1: int) -> SGraphicTile {
    SGraphicTile {
        top_left: TileVertex { x: x0 as i32, y: y0 as i32 },
        top_right: TileVertex { x: x1 as i32, y: y0 as i32 },
        bottom_right: TileVertex { x: x1 as i32, y: y1 as i32 },
        bottom_left: TileVertex { x: x0 as i32, y: y1 as i32 },
    }
}

/// The quad of the tile at grid position `(x, y)`.
pub open spec fn grid_tile(x: int, y: int, scale: int) -> SGraphicTile {
    rect_tile(x * scale, y * scale, x * scale + scale, y * scale + scale)
}

/// The quad of a speedup tile at grid position `(x, y)`: the grid square
/// shrunk by `SPEEDUP_SHRINK` on every side.
pub open spec fn speedup_tile(x: int, y: int, scale: int) -> SGraphicTile {
    rect_tile(
        x * scale + SPEEDUP_SHRINK,
        y * scale + SPEEDUP_SHRINK,
        x * scale + scale - SPEEDUP_SHRINK,
        y * scale + scale - SPEEDUP_SHRINK,
    )
}

/// The grid position `(x, y)` at `scale` stays inside the `i32` range.
pub open spec fn fits_grid(x: int, y: int, scale: int) -> bool {
    &&& 0 <= scale
    &&& i32::MIN <= x * scale
    &&& x * scale + scale <= i32::MAX
    &&& i32::MIN <= y * scale
    &&& y * scale + scale <= i32::MAX
}

pub fn fill_tmp_tile(flags: u8, index: u8, x: i32, y: i32, scale: i32) -> (r: (
    SGraphicTile,
    SGraphicTileTexureCoords,
))
    requires
        fits_grid(x as int, y as int, scale as int),
    ensures
        r.0 == grid_tile(x as int, y as int, scale as int),
        r.1 == tile_tex_coords(flags, index),
{
    let mut x0: u8 = 0;
    let mut y0: u8 = 0;
    let mut x1: u8 = 1;
    let mut y1: u8 = 0;
    let mut x2: u8 = 1;
    let mut y2: u8 = 1;
    let mut x3: u8 = 0;
    let mut y3: u8 = 1;

    if (flags & TILE_FLAG_XFLIP) != 0 {
        x0 = x2;
        x1 = x3;
        x2 = x3;
        x3 = x0;
    }
    if (flags & TILE_FLAG_YFLIP) != 0 {
        y0 = y3;
        y2 = y1;
        y3 = y1;
        y1 = y0;
    }
    if (flags & TILE_FLAG_ROTATE) != 0 {
        let mut tmp = x0;
        x0 = x3;
        x3 = x2;
        x2 = x1;
        x1 = tmp;
        tmp = y0;
        y0 = y3;
        y3 = y2;
        y2 = y1;
        y1 = tmp;
    }
    let tex = SGraphicTileTexureCoords {
        tex_coord_top_left: TileTexCoord { x: x0, y: y0, z: index },
        tex_coord_top_right: TileTexCoord { x: x1, y: y1, z: index },
        tex_coord_bottom_right: TileTexCoord { x: x2, y: y2, z: index },
        tex_coord_bottom_left: TileTexCoord { x: x3, y: y3, z: index },
    };
    let left = x * scale;
    let top = y * scale;
    let right = x * scale + scale;
    let bottom = y * scale + scale;
    let tile = SGraphicTile {
        top_left: TileVertex { x: left, y: top },
        top_right: TileVertex { x: right, y: top },
        bottom_right: TileVertex { x: right, y: bottom },
        bottom_left: TileVertex { x: left, y: bottom },
    };
    (tile, tex)
}

/// Quad and texture coordinates of a speedup tile. The texture coordinates
/// are those of an unflipped tile; the uploaded corners are not rotated by
/// the speedup's angle.
pub fn fill_tmp_tile_speedup(index: u8, x: i32, y: i32, scale: i32) -> (r: (
    SGraphicTile,
    SGraphicTileTexureCoords,
))
    requires
        fits_grid(x as int, y as int, scale as int),
        2 * SPEEDUP_SHRINK <= scale,
    ensures
        r.0 == speedup_tile(x as int, y as int, scale as int),
        r.1 == tile_tex_coords(0, index),
{
    proof {
        assert(0u8 & 1u8 == 0 && 0u8 & 2u8 == 0 && 0u8 & 8u8 == 0) by (bit_vector);
    }
    let tex = SGraphicTileTexureCoords {
        tex_coord_top_left: TileTexCoord { x: 0, y: 0, z: index },
        tex_coord_top_right: TileTexCoord { x: 1, y: 0, z: index },
        tex_coord_bottom_right: TileTexCoord { x: 1, y: 1, z: index },
        tex_coord_bottom_left: TileTexCoord { x: 0, y: 1, z: index },
    };
    let left = x * scale + SPEEDUP_SHRINK;
    let top = y * scale + SPEEDUP_SHRINK;
    let right = x * scale + scale - SPEEDUP_SHRINK;
    let bottom = y * scale + scale - SPEEDUP_SHRINK;
    let tile = SGraphicTile {
        top_left: TileVertex { x: left, y: top },
        top_right: TileVertex { x: right, y: top },
        bottom_right: TileVertex { x: right, y: bottom },
        bottom_left: TileVertex { x: left, y: bottom },
    };
    (tile, tex)
}

/// The quad that `add_tile` appends for a tile at `(x, y)`.
pub open spec fn added_tile(x: int, y: int, fill_speedup: bool) -> SGraphicTile {
    if fill_speedup {
        speedup_tile(x, y, TILE_SCALE as int)
    } else {
        grid_tile(x, y, TILE_SCALE as int)
    }
}

/// The texture coordinates that `add_tile` appends for a tile.
pub open spec fn added_tex(index: u8, flags: u8, fill_speedup: bool) -> SGraphicTileTexureCoords {
    if fill_speedup {
        tile_tex_coords(0, 0)
    } else {
        tile_tex_coords(flags, index)
    }
}

/// Appends the quad of a non-empty tile (index > 0); returns whether it did.
pub fn add_tile(
    tmp_tiles: &mut Vec<SGraphicTile>,
    tmp_tile_tex_coords: &mut Vec<SGraphicTileTexureCoords>,
    index: u8,
    flags: u8,
    x: i32,
    y: i32,
    do_texture_coords: bool,
    fill_speedup: bool,
) -> (r: bool)
    requires
        fits_grid(x as int, y as int, TILE_SCALE as int),
    ensures
        r == (index > 0),
        r ==> final(tmp_tiles)@ == old(tmp_tiles)@.push(added_tile(x as int, y as int, fill_speedup)),
        !r ==> final(tmp_tiles)@ == old(tmp_tiles)@,
        (r && do_texture_coords) ==> final(tmp_tile_tex_coords)@ == old(tmp_tile_tex_coords)@.push(
            added_tex(index, flags, fill_speedup),
        ),
        !(r && do_texture_coords) ==> final(tmp_tile_tex_coords)@ == old(tmp_tile_tex_coords)@,
{
    if index > 0 {
        let (tile, tex) = if fill_speedup {
            fill_tmp_tile_speedup(0, x, y, TILE_SCALE)
        } else {
            fill_tmp_tile(flags, index, x, y, TILE_SCALE)
        };
        tmp_tiles.push(tile);
        if do_texture_coords {
            tmp_tile_tex_coords.push(tex);
        }
        return true;
    }
    false
}

} // verus!
