//! The hex/Cartesian coordinate transform.
//!
//! Pure and stateless, parameterized only by the sector's row count. Hex
//! coordinates are 1-based `(x, y)` pairs; Cartesian plot coordinates are
//! integers in milli-units (1000 milli-units to one plot unit). Odd columns
//! are staggered half a row upward, and every point carries a constant
//! vertical and horizontal bias so it centers within its rendered cell.

use vstd::prelude::*;

verus! {

/// Half a plot unit: centers a point horizontally within its column.
pub const HORIZONTAL_OFFSET: i32 = 500;

/// A quarter of a plot unit: centers a point vertically within its row.
pub const VERTICAL_OFFSET: i32 = 250;

/// Half a plot unit: the vertical stagger applied to odd columns.
pub const STAGGER_OFFSET: i32 = 500;

/// The Cartesian x of the hex column `x`, in milli-units.
pub open spec fn spec_cartesian_x(x: int) -> int {
    1000 * x - 500
}

/// The Cartesian y of the hex cell `(x, y)` on a grid of `rows` rows, in
/// milli-units: row 1 is the topmost row, so `y` is inverted, and odd
/// columns are staggered half a row upward.
pub open spec fn spec_cartesian_y(rows: int, x: int, y: int) -> int {
    1000 * (rows - y) + 500 * (x % 2) + 250
}

/// The hex column addressed by the Cartesian x `cx` (milli-units):
/// `round(|cx + 0.5|)` in plot units.
pub open spec fn spec_hex_x(cx: int) -> int {
    (abs_int(cx + 500) + 500) / 1000
}

/// The hex row addressed by the Cartesian y `cy` (milli-units) on a grid of
/// `rows` rows: `rows - floor(cy)` in plot units.
pub open spec fn spec_hex_y(rows: int, cy: int) -> int {
    rows - floor_div_1000(cy)
}

pub open spec fn abs_int(v: int) -> int {
    if v < 0 {
        -v
    } else {
        v
    }
}

/// Floor division of a milli-unit value by 1000 (integer division in Verus
/// rounds toward negative infinity for a positive divisor).
pub open spec fn floor_div_1000(v: int) -> int {
    v / 1000
}

/// Maps the 1-based hex cell `hex` to its Cartesian plot point, in
/// milli-units, on a grid of `rows` rows.
pub fn hex_to_cartesian(rows: u8, hex: (u8, u8)) -> (c: (i32, i32))
    ensures
        c.0 == spec_cartesian_x(hex.0 as int),
        c.1 == spec_cartesian_y(rows as int, hex.0 as int, hex.1 as int),
{
    let cx: i32 = hex.0 as i32 * 1000 - HORIZONTAL_OFFSET;
    let cy: i32 = (rows as i32 - hex.1 as i32) * 1000 + (hex.0 % 2) as i32 * STAGGER_OFFSET
        + VERTICAL_OFFSET;
    (cx, cy)
}

/// Maps a Cartesian plot point (milli-units) back to the hex cell it
/// addresses, on a grid of `rows` rows. The caller keeps the result within
/// the 8-bit hex domain; over the image of the valid hex domain this is the
/// exact inverse of `hex_to_cartesian`.
pub fn cartesian_to_hex(rows: u8, c: (i32, i32)) -> (h: (u8, u8))
    requires
        0 <= spec_hex_x(c.0 as int) <= u8::MAX,
        0 <= spec_hex_y(rows as int, c.1 as int) <= u8::MAX,
    ensures
        h.0 == spec_hex_x(c.0 as int),
        h.1 == spec_hex_y(rows as int, c.1 as int),
{
    let shifted: i64 = c.0 as i64 + HORIZONTAL_OFFSET as i64;
    let magnitude: i64 = if shifted < 0 {
        -shifted
    } else {
        shifted
    };
    let hx: i64 = (magnitude + 500) / 1000;

    // Shift the y value into nonnegative range so that truncating division
    // is floor division, then shift the quotient back.
    let lifted: i64 = c.1 as i64 + 3_000_000_000;
    let lifted_q: i64 = lifted / 1000;
    proof {
        vstd::arithmetic::div_mod::lemma_fundamental_div_mod(c.1 as int, 1000);
        vstd::arithmetic::div_mod::lemma_fundamental_div_mod_converse(
            c.1 as int + 3_000_000_000,
            1000,
            c.1 as int / 1000 + 3_000_000,
            c.1 as int % 1000,
        );
    }
    let hy: i64 = rows as i64 - (lifted_q - 3_000_000);
    (hx as u8, hy as u8)
}

/// The coordinate transform is a round trip: over every hex cell of the
/// valid 1-based domain, mapping to Cartesian and back returns the cell
/// unchanged.
pub proof fn lemma_coordinate_round_trip(rows: u8, columns: u8, x: u8, y: u8)
    requires
        1 <= x <= columns,
        1 <= y <= rows,
    ensures
        spec_hex_x(spec_cartesian_x(x as int)) == x as int,
        spec_hex_y(rows as int, spec_cartesian_y(rows as int, x as int, y as int)) == y as int,
{
    let cx = spec_cartesian_x(x as int);
    assert(abs_int(cx + 500) == 1000 * (x as int));
    vstd::arithmetic::div_mod::lemma_fundamental_div_mod_converse(
        1000 * (x as int) + 500,
        1000,
        x as int,
        500,
    );

    let cy = spec_cartesian_y(rows as int, x as int, y as int);
    let stagger = 500 * ((x as int) % 2) + 250;
    assert(0 <= stagger < 1000);
    vstd::arithmetic::div_mod::lemma_fundamental_div_mod_converse(
        cy,
        1000,
        rows as int - y as int,
        stagger,
    );
}

} // verus!
