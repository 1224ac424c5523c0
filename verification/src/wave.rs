//! The drawn waveform: what it is made of, and how many columns a clip
//! gets.

use vstd::prelude::*;

verus! {

/// A drawn waveform: two sets of SVG path commands in a 1x1 box, drawn on
/// top of each other.
#[derive(Clone, Debug, Default, PartialEq)]
pub struct Wave {
    /// Every column's bar, from the floor up to its peak or to the hot
    /// line, whichever is lower.
    pub body: String,
    /// The part of each bar over the hot line, for the columns that reach
    /// it; empty when none does.
    pub hot: String,
}

/// Fewest columns worth drawing: enough that silence still reads as a
/// clip.
pub const FEWEST_COLUMNS: usize = 8;

/// Most columns worth drawing: enough that a clip a screen wide reads a
/// column a pixel, few enough that the path stays under a few hundred
/// kilobytes.
pub const MOST_COLUMNS: usize = 2048;

/// The step a clip's column count moves in as it zooms.
pub const COLUMN_STEP: usize = 64;

/// The columns for a clip `pixels` wide: one a pixel, rounded up to the
/// next step, at least one step, held to [`MOST_COLUMNS`].
pub open spec fn columns_spec(pixels: nat) -> nat {
    let steps = (pixels + 63) / 64;
    let rounded = 64 * if steps < 1 { 1 } else { steps };
    if rounded > 2048 {
        2048
    } else {
        rounded
    }
}

/// How many columns a clip `pixels` wide gets: one a pixel, rounded up to
/// the next sixty-four so a zoom rebuilds the path at each step of that
/// and not at every pixel, and held to what is worth drawing.
pub fn columns_for_pixels(pixels: usize) -> (columns: usize)
    ensures
        columns == columns_spec(pixels as nat),
        columns % COLUMN_STEP == 0,
        COLUMN_STEP <= columns <= MOST_COLUMNS,
        FEWEST_COLUMNS <= columns,
        pixels <= MOST_COLUMNS ==> pixels <= columns < pixels + COLUMN_STEP || (pixels == 0 && columns == COLUMN_STEP),
        pixels >= MOST_COLUMNS ==> columns == MOST_COLUMNS,
{
    let steps = pixels / COLUMN_STEP + if pixels % COLUMN_STEP == 0 { 0 } else { 1 };
    let steps = if steps < 1 { 1 } else { steps };
    let columns = if steps > MOST_COLUMNS / COLUMN_STEP {
        MOST_COLUMNS
    } else {
        steps * COLUMN_STEP
    };
    if columns < FEWEST_COLUMNS {
        FEWEST_COLUMNS
    } else {
        columns
    }
}


/// Columns never go down as a clip widens, and a clip at least
/// [`MOST_COLUMNS`] pixels wide gets exactly [`MOST_COLUMNS`].
pub proof fn columns_grow_with_the_clip(narrow: nat, wide: nat)
    requires
        narrow <= wide,
    ensures
        columns_spec(narrow) <= columns_spec(wide),
        wide >= MOST_COLUMNS ==> columns_spec(wide) == MOST_COLUMNS,
{
    assert((narrow + 63) / 64 <= (wide + 63) / 64) by (nonlinear_arith)
        requires
            narrow <= wide,
    ;
    if wide >= 2048 {
        assert((wide + 63) / 64 >= 32) by (nonlinear_arith)
            requires
                wide >= 2048,
        ;
    }
}

} // verus!
