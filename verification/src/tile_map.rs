//! Land/water tile map: a fixed 12 x 10 binary grid plus the sampling rule
//! that wraps coordinates into a slightly larger rectangle and paints a
//! deliberate coastline bias in the margin beyond the map edge.
use vstd::prelude::*;

verus! {

/// Number of tile columns in the map.
pub const MAP_WIDTH: usize = 12;

/// Number of tile rows in the map.
pub const MAP_HEIGHT: usize = 10;

/// Extra columns and rows of margin that sampling wraps through before
/// the coordinates come back around to the map itself.
pub const MAP_MARGIN: usize = 3;

/// Occupancy of map row `y`, one bit per column: bit `x` is set where the
/// tile at `(x, y)` is land. Row 0 is the top of the map.
///
/// Drawn as a grid (`#` land, `.` water), row 0 first:
/// ```text
/// .########...
/// .########...
/// ...#######..
/// ####.##.....
/// .........###
/// ....#....###
/// ....##..####
/// ##..########
/// .###########
/// ############
/// ```
pub open spec fn row_bits(y: int) -> u16 {
    if y == 0 {
        0x1FE
    } else if y == 1 {
        0x1FE
    } else if y == 2 {
        0x3F8
    } else if y == 3 {
        0x06F
    } else if y == 4 {
        0xE00
    } else if y == 5 {
        0xE10
    } else if y == 6 {
        0xF30
    } else if y == 7 {
        0xFF3
    } else if y == 8 {
        0xFFE
    } else {
        0xFFF
    }
}

/// The tile at `(x, y)` inside the map rectangle: 1 for land, 0 for water.
pub open spec fn tile_spec(x: int, y: int) -> u8 {
    ((row_bits(y) >> (x as u16)) & 1) as u8
}

/// Reads one tile of the map grid.
pub fn tile_at(x: usize, y: usize) -> (tile: u8)
    requires
        x < MAP_WIDTH,
        y < MAP_HEIGHT,
    ensures
        tile == tile_spec(x as int, y as int),
        tile == 0 || tile == 1,
{
    let row: u16 = if y == 0 {
        0x1FE
    } else if y == 1 {
        0x1FE
    } else if y == 2 {
        0x3F8
    } else if y == 3 {
        0x06F
    } else if y == 4 {
        0xE00
    } else if y == 5 {
        0xE10
    } else if y == 6 {
        0xF30
    } else if y == 7 {
        0xFF3
    } else if y == 8 {
        0xFFE
    } else {
        0xFFF
    };
    let bit = (row >> (x as u16)) & 1;
    assert((row >> (x as u16)) & 1 < 2) by (bit_vector);
    bit as u8
}

/// What sampling the map at the whole-number point `(x, y)` yields.
/// Coordinates wrap modulo the map extent plus the margin; a wrapped point
/// that lands in the margin is land exactly when it lies past the map's
/// falling diagonal (counting a wrapped-around column difference as far),
/// which biases the region beyond the map edge toward coastline.
pub open spec fn sample_map_spec(x: int, y: int) -> u8 {
    let xm = x % ((MAP_WIDTH + MAP_MARGIN) as int);
    let ym = y % ((MAP_HEIGHT + MAP_MARGIN) as int);
    if xm < MAP_WIDTH && ym < MAP_HEIGHT {
        tile_spec(xm, ym)
    } else if xm < ym || xm - ym > MAP_WIDTH {
        1
    } else {
        0
    }
}

/// Samples the map at a whole-number point, wrapping out-of-range
/// coordinates and applying the diagonal coastline rule in the margin.
pub fn sample_map(x: usize, y: usize) -> (sample: u8)
    ensures
        sample == sample_map_spec(x as int, y as int),
        sample == 0 || sample == 1,
{
    let xm = x % (MAP_WIDTH + MAP_MARGIN);
    let ym = y % (MAP_HEIGHT + MAP_MARGIN);
    if xm < MAP_WIDTH && ym < MAP_HEIGHT {
        tile_at(xm, ym)
    } else if xm < ym {
        1
    } else if xm - ym > MAP_WIDTH {
        1
    } else {
        0
    }
}

/// Law: sampling is periodic. Out-of-range coordinates wrap, so stepping a
/// whole map-plus-margin extent on each axis lands on the same sample.
pub proof fn lemma_sample_map_wraps(x: int, y: int)
    ensures
        sample_map_spec(x + (MAP_WIDTH + MAP_MARGIN), y + (MAP_HEIGHT + MAP_MARGIN))
            == sample_map_spec(x, y),
{
    vstd::arithmetic::div_mod::lemma_mod_add_multiples_vanish(x, (MAP_WIDTH + MAP_MARGIN) as int);
    vstd::arithmetic::div_mod::lemma_mod_add_multiples_vanish(y, (MAP_HEIGHT + MAP_MARGIN) as int);
}

/// The map samples at the four corners of the unit cell whose lowest
/// corner is `(x, y)`: the cell's own corner, its right neighbour, its
/// lower neighbour, and the diagonal. Interpolated sampling blends these.
pub fn corner_samples(x: usize, y: usize) -> (corners: (u8, u8, u8, u8))
    requires
        x < usize::MAX,
        y < usize::MAX,
    ensures
        corners.0 == sample_map_spec(x as int, y as int),
        corners.1 == sample_map_spec(x as int + 1, y as int),
        corners.2 == sample_map_spec(x as int, y as int + 1),
        corners.3 == sample_map_spec(x as int + 1, y as int + 1),
{
    (
        sample_map(x, y),
        sample_map(x + 1, y),
        sample_map(x, y + 1),
        sample_map(x + 1, y + 1),
    )
}

} // verus!
