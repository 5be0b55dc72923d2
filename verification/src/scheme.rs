//! Renumbering of tile rows between the two row conventions.
//!
//! The archive counts rows from the bottom of the grid. A source tree that
//! counts them from the top has each row mirrored within the grid of its zoom
//! level, which has `2^zoom` rows.

use crate::args::Scheme;
use vstd::arithmetic::power2::{lemma2_to64, lemma_pow2_pos, lemma_pow2_strictly_increases, pow2};
use vstd::bits::lemma_u32_shl_is_mul;
use vstd::prelude::*;

verus! {

/// The deepest zoom level whose rows a `u32` can number.
pub const DEEPEST_ZOOM: u8 = 31;

/// Number of rows, and of columns, of the grid at `zoom`.
pub open spec fn grid_size(zoom: u8) -> nat {
    pow2(zoom as nat)
}

/// Whether `row` is a row of the grid at `zoom`, at a zoom level whose rows a
/// `u32` can number.
pub open spec fn row_on_grid(zoom: u8, row: u32) -> bool {
    zoom <= DEEPEST_ZOOM && row < grid_size(zoom)
}

/// Whether the row of a tile can be renumbered for storage.
pub open spec fn translatable(scheme: Scheme, zoom: u8, row: u32) -> bool {
    scheme == Scheme::TMS || row_on_grid(zoom, row)
}

/// The row under which a tile is stored.
pub open spec fn stored_row(scheme: Scheme, zoom: u8, row: u32) -> int {
    match scheme {
        Scheme::XYZ => grid_size(zoom) - 1 - row,
        Scheme::TMS => row as int,
    }
}

pub proof fn lemma_grid_size_fits(zoom: u8)
    requires
        zoom <= DEEPEST_ZOOM,
    ensures
        0 < grid_size(zoom) <= 0x8000_0000,
{
    lemma2_to64();
    lemma_pow2_pos(zoom as nat);
    if zoom < 31 {
        lemma_pow2_strictly_increases(zoom as nat, 31);
    }
}

/// A mirrored row is a row of the same grid.
pub proof fn lemma_stored_row_on_grid(zoom: u8, row: u32)
    requires
        row_on_grid(zoom, row),
    ensures
        0 <= stored_row(Scheme::XYZ, zoom, row) < grid_size(zoom),
        row_on_grid(zoom, stored_row(Scheme::XYZ, zoom, row) as u32),
{
    lemma_grid_size_fits(zoom);
}

/// Mirroring a row twice gives the row back: for every row of the grid at
/// `zoom`, counted from the top, the stored row, taken as counted from the
/// top again, is stored under the first number.
pub proof fn lemma_mirror_twice(zoom: u8, row: u32)
    requires
        row_on_grid(zoom, row),
    ensures
        stored_row(Scheme::XYZ, zoom, stored_row(Scheme::XYZ, zoom, row) as u32) == row,
{
    lemma_grid_size_fits(zoom);
}

/// Rows counted from the bottom are stored as they are, on every grid and
/// off it.
pub proof fn lemma_bottom_origin_is_identity(zoom: u8, row: u32)
    ensures
        translatable(Scheme::TMS, zoom, row),
        stored_row(Scheme::TMS, zoom, row) == row,
{
}

/// The number of rows of the grid at `zoom`.
pub fn grid_rows(zoom: u8) -> (rows: u32)
    requires
        zoom <= DEEPEST_ZOOM,
    ensures
        rows == grid_size(zoom),
{
    proof {
        lemma_grid_size_fits(zoom);
        lemma_u32_shl_is_mul(1u32, zoom as u32);
    }
    1u32 << zoom
}

/// The row under which the archive stores a tile of the given row.
///
/// A row counted from the top is mirrored: `2^zoom - 1 - row`. A row counted
/// from the bottom is stored as it is.
pub fn translate_row(scheme: Scheme, zoom: u8, row: u32) -> (stored: u32)
    requires
        translatable(scheme, zoom, row),
    ensures
        stored == stored_row(scheme, zoom, row),
        scheme == Scheme::TMS ==> stored == row,
        scheme == Scheme::XYZ ==> stored == grid_size(zoom) - 1 - row,
{
    match scheme {
        Scheme::XYZ => grid_rows(zoom) - 1 - row,
        Scheme::TMS => row,
    }
}

/// The row under which the archive stores a tile, or `None` where the row
/// cannot be mirrored: it is no row of the grid at `zoom`, or the grid has
/// more rows than a `u32` can number.
pub fn try_translate_row(scheme: Scheme, zoom: u8, row: u32) -> (stored: Option<u32>)
    ensures
        stored is Some <==> translatable(scheme, zoom, row),
        stored matches Some(r) ==> r == stored_row(scheme, zoom, row),
{
    match scheme {
        Scheme::TMS => Some(row),
        Scheme::XYZ => {
            if zoom <= DEEPEST_ZOOM && row < grid_rows(zoom) {
                Some(translate_row(scheme, zoom, row))
            } else {
                None
            }
        },
    }
}

} // verus!
