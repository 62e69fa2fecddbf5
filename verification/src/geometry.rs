//! Translation between grid cell coordinates and pixel geometry: cell
//! rectangles for painting, and the inverse map from a pointer position to
//! the cell under it.

use vstd::prelude::*;
use vstd::arithmetic::div_mod::{
    lemma_div_is_ordered, lemma_div_nonincreasing, lemma_div_plus_one,
    lemma_fundamental_div_mod, lemma_fundamental_div_mod_converse, lemma_mod_bound,
};
use vstd::arithmetic::mul::lemma_mul_inequality;
use crate::{FIELD_SIZE, MARGIN};

verus! {

/// An axis-aligned rectangle in pixel coordinates.
#[derive(Debug, Clone, Copy, PartialEq, Eq, Structural)]
pub struct Rect {
    pub x: u64,
    pub y: u64,
    pub width: u64,
    pub height: u64,
}

/// A pointer position in pixel coordinates.
#[derive(Debug, Clone, Copy, PartialEq, Eq, Structural)]
pub struct PixelPos {
    pub x: u64,
    pub y: u64,
}

/// Division rounding up: the least `q` with `x <= q * d`, for `x >= 0, d > 0`.
pub open spec fn ceil_div(x: int, d: int) -> int {
    (x + d - 1) / d
}

/// Rounding-up division followed by a subtraction that saturates at zero.
pub open spec fn pixel_to_index(x: int, cell_len: int, offset: int) -> int {
    if ceil_div(x, cell_len) >= offset {
        ceil_div(x, cell_len) - offset
    } else {
        0
    }
}

/// Clamps a cell index into `[0, FIELD_SIZE)`.
pub open spec fn clamp_cell(k: int) -> int {
    if k < 0 {
        0
    } else if k >= FIELD_SIZE {
        FIELD_SIZE - 1
    } else {
        k
    }
}

/// Quotient rounded up, computed without overflow.
fn ceil_div_u64(x: u64, d: u64) -> (r: u64)
    requires
        0 < d,
    ensures
        r == ceil_div(x as int, d as int),
{
    if x == 0 {
        proof {
            lemma_fundamental_div_mod_converse(d as int - 1, d as int, 0, d as int - 1);
        }
        0
    } else {
        proof {
            lemma_div_nonincreasing(x as int - 1, d as int);
            lemma_div_plus_one(x as int - 1, d as int);
        }
        (x - 1) / d + 1
    }
}

/// Converts between grid coordinates and pixel geometry for one canvas size.
#[derive(Debug, Clone, Copy, PartialEq, Eq, Structural)]
pub struct PointsTranslator {
    pub cell_width: u64,
    pub cell_height: u64,
}

impl PointsTranslator {
    /// Cell dimensions small enough that a full row or column of cells stays
    /// within `u64` pixel coordinates.
    pub open spec fn bounded(self) -> bool {
        &&& self.cell_width * (FIELD_SIZE as int) <= u64::MAX
        &&& self.cell_height * (FIELD_SIZE as int) <= u64::MAX
    }

    /// Cell dimensions in bounds and wide enough to hold the margin inset on
    /// both sides.
    pub open spec fn wf(self) -> bool {
        &&& self.bounded()
        &&& 2 * MARGIN < self.cell_width
        &&& 2 * MARGIN < self.cell_height
    }

    /// The full-size rectangle of cell `(i, j)`.
    pub open spec fn spec_cell_background(self, i: int, j: int) -> Rect {
        Rect {
            x: (i * self.cell_width) as u64,
            y: (j * self.cell_height) as u64,
            width: self.cell_width,
            height: self.cell_height,
        }
    }

    /// The rectangle of cell `(i, j)` inset by the margin on all sides.
    pub open spec fn spec_cell_content(self, i: int, j: int) -> Rect {
        Rect {
            x: (i * self.cell_width + MARGIN) as u64,
            y: (j * self.cell_height + MARGIN) as u64,
            width: (self.cell_width - 2 * MARGIN) as u64,
            height: (self.cell_height - 2 * MARGIN) as u64,
        }
    }

    /// A translator for a canvas of the given pixel size: each cell is a
    /// `FIELD_SIZE`-th of the canvas in each dimension.
    pub fn new(width: u64, height: u64) -> (t: Self)
        ensures
            t.cell_width == width as int / (FIELD_SIZE as int),
            t.cell_height == height as int / (FIELD_SIZE as int),
            t.bounded(),
            (2 * MARGIN + 1) * (FIELD_SIZE as int) <= width && (2 * MARGIN + 1) * (FIELD_SIZE as int)
                <= height ==> t.wf(),
    {
        let cell_width = width / (FIELD_SIZE as u64);
        let cell_height = height / (FIELD_SIZE as u64);
        proof {
            lemma_fundamental_div_mod(width as int, FIELD_SIZE as int);
            lemma_fundamental_div_mod(height as int, FIELD_SIZE as int);
            lemma_mod_bound(width as int, FIELD_SIZE as int);
            lemma_mod_bound(height as int, FIELD_SIZE as int);
        }
        Self { cell_width, cell_height }
    }

    /// Pixel position of the top-left corner of cell `(i, j)`.
    pub fn coords_to_position(&self, i: usize, j: usize) -> (p: PixelPos)
        requires
            self.bounded(),
            i < FIELD_SIZE,
            j < FIELD_SIZE,
        ensures
            p.x == i * self.cell_width,
            p.y == j * self.cell_height,
    {
        proof {
            lemma_mul_inequality(i as int, FIELD_SIZE as int, self.cell_width as int);
            lemma_mul_inequality(j as int, FIELD_SIZE as int, self.cell_height as int);
        }
        PixelPos { x: (i as u64) * self.cell_width, y: (j as u64) * self.cell_height }
    }

    /// Pixel position of the center of cell `(i, j)`.
    pub fn coords_to_center(&self, i: usize, j: usize) -> (p: PixelPos)
        requires
            self.bounded(),
            i < FIELD_SIZE,
            j < FIELD_SIZE,
        ensures
            p.x == i * self.cell_width + self.cell_width / 2,
            p.y == j * self.cell_height + self.cell_height / 2,
    {
        let corner = self.coords_to_position(i, j);
        proof {
            lemma_mul_inequality(i as int + 1, FIELD_SIZE as int, self.cell_width as int);
            lemma_mul_inequality(j as int + 1, FIELD_SIZE as int, self.cell_height as int);
            lemma_div_nonincreasing(self.cell_width as int, 2);
            lemma_div_nonincreasing(self.cell_height as int, 2);
            assert((i as int + 1) * self.cell_width == i as int * self.cell_width
                + self.cell_width) by (nonlinear_arith);
            assert((j as int + 1) * self.cell_height == j as int * self.cell_height
                + self.cell_height) by (nonlinear_arith);
        }
        PixelPos { x: corner.x + self.cell_width / 2, y: corner.y + self.cell_height / 2 }
    }

    /// Pixel-to-cell conversion with distinct offsets per axis: the quotient
    /// is rounded up, then the column index is pulled back by one and the row
    /// index by two, saturating at zero. The result can lie outside the grid
    /// for positions near the canvas edge; `pixel_to_cell` is the symmetric,
    /// clamped form.
    pub fn position_to_coords(&self, position: &PixelPos) -> (r: (usize, usize))
        requires
            0 < self.cell_width,
            0 < self.cell_height,
            position.x <= self.cell_width * (FIELD_SIZE as int),
            position.y <= self.cell_height * (FIELD_SIZE as int),
        ensures
            r.0 == pixel_to_index(position.x as int, self.cell_width as int, 1),
            r.1 == pixel_to_index(position.y as int, self.cell_height as int, 2),
    {
        let ci = ceil_div_u64(position.x, self.cell_width);
        let cj = ceil_div_u64(position.y, self.cell_height);
        proof {
            lemma_ceil_div_le_grid(position.x as int, self.cell_width as int);
            lemma_ceil_div_le_grid(position.y as int, self.cell_height as int);
        }
        let i = if ci >= 1 {
            ci - 1
        } else {
            0
        };
        let j = if cj >= 2 {
            cj - 2
        } else {
            0
        };
        (i as usize, j as usize)
    }

    /// The cell under a pixel position: the quotient rounded up and pulled
    /// back by one on both axes, clamped into the grid.
    pub fn pixel_to_cell(&self, position: &PixelPos) -> (r: (usize, usize))
        requires
            0 < self.cell_width,
            0 < self.cell_height,
        ensures
            r.0 == clamp_cell(ceil_div(position.x as int, self.cell_width as int) - 1),
            r.1 == clamp_cell(ceil_div(position.y as int, self.cell_height as int) - 1),
            r.0 < FIELD_SIZE,
            r.1 < FIELD_SIZE,
    {
        let ci = ceil_div_u64(position.x, self.cell_width);
        let cj = ceil_div_u64(position.y, self.cell_height);
        let i = if ci >= 1 {
            ci - 1
        } else {
            0
        };
        let j = if cj >= 1 {
            cj - 1
        } else {
            0
        };
        let ri = if i >= FIELD_SIZE as u64 {
            FIELD_SIZE - 1
        } else {
            i as usize
        };
        let rj = if j >= FIELD_SIZE as u64 {
            FIELD_SIZE - 1
        } else {
            j as usize
        };
        (ri, rj)
    }

    /// The background and content rectangles to paint for cell `(i, j)`.
    pub fn get_cell_fill(&self, i: usize, j: usize) -> (r: (Rect, Rect))
        requires
            self.wf(),
            i < FIELD_SIZE,
            j < FIELD_SIZE,
        ensures
            r.0 == self.spec_cell_background(i as int, j as int),
            r.1 == self.spec_cell_content(i as int, j as int),
    {
        let corner = self.coords_to_position(i, j);
        proof {
            lemma_mul_inequality(i as int + 1, FIELD_SIZE as int, self.cell_width as int);
            lemma_mul_inequality(j as int + 1, FIELD_SIZE as int, self.cell_height as int);
            assert((i as int + 1) * self.cell_width == i as int * self.cell_width
                + self.cell_width) by (nonlinear_arith);
            assert((j as int + 1) * self.cell_height == j as int * self.cell_height
                + self.cell_height) by (nonlinear_arith);
        }
        let background = Rect {
            x: corner.x,
            y: corner.y,
            width: self.cell_width,
            height: self.cell_height,
        };
        let content = Rect {
            x: corner.x + MARGIN,
            y: corner.y + MARGIN,
            width: self.cell_width - 2 * MARGIN,
            height: self.cell_height - 2 * MARGIN,
        };
        (background, content)
    }
}

/// A rounded-up quotient of a position within the canvas is at most the grid
/// side.
proof fn lemma_ceil_div_le_grid(x: int, d: int)
    requires
        0 < d,
        0 <= x <= d * (FIELD_SIZE as int),
    ensures
        0 <= ceil_div(x, d) <= FIELD_SIZE as int,
{
    assert(d * (FIELD_SIZE as int) == (FIELD_SIZE as int) * d) by (nonlinear_arith);
    lemma_div_is_ordered(x + d - 1, (FIELD_SIZE as int) * d + d - 1, d);
    lemma_fundamental_div_mod_converse(
        (FIELD_SIZE as int) * d + d - 1,
        d,
        FIELD_SIZE as int,
        d - 1,
    );
    vstd::arithmetic::div_mod::lemma_div_pos_is_pos(x + d - 1, d);
}

/// The cell dimensions of a canvas tile it exactly: when the grid side
/// divides a canvas extent, the cell length times the grid side gives the
/// extent back.
pub proof fn lemma_cells_tile_canvas(width: u64, height: u64)
    requires
        width as int % (FIELD_SIZE as int) == 0,
        height as int % (FIELD_SIZE as int) == 0,
    ensures
        (width as int / (FIELD_SIZE as int)) * (FIELD_SIZE as int) == width,
        (height as int / (FIELD_SIZE as int)) * (FIELD_SIZE as int) == height,
{
    lemma_fundamental_div_mod(width as int, FIELD_SIZE as int);
    lemma_fundamental_div_mod(height as int, FIELD_SIZE as int);
}

/// The content rectangle of a cell lies strictly inside its background
/// rectangle, inset by exactly the margin on every side.
pub proof fn lemma_content_within_background(t: PointsTranslator, i: int, j: int)
    requires
        t.wf(),
        0 <= i < FIELD_SIZE,
        0 <= j < FIELD_SIZE,
    ensures
        t.spec_cell_content(i, j).x == t.spec_cell_background(i, j).x + MARGIN,
        t.spec_cell_content(i, j).y == t.spec_cell_background(i, j).y + MARGIN,
        t.spec_cell_content(i, j).x + t.spec_cell_content(i, j).width + MARGIN
            == t.spec_cell_background(i, j).x + t.spec_cell_background(i, j).width,
        t.spec_cell_content(i, j).y + t.spec_cell_content(i, j).height + MARGIN
            == t.spec_cell_background(i, j).y + t.spec_cell_background(i, j).height,
        t.spec_cell_background(i, j).x < t.spec_cell_content(i, j).x,
        t.spec_cell_background(i, j).y < t.spec_cell_content(i, j).y,
        t.spec_cell_content(i, j).x + t.spec_cell_content(i, j).width
            < t.spec_cell_background(i, j).x + t.spec_cell_background(i, j).width,
        t.spec_cell_content(i, j).y + t.spec_cell_content(i, j).height
            < t.spec_cell_background(i, j).y + t.spec_cell_background(i, j).height,
{
    lemma_mul_inequality(i + 1, FIELD_SIZE as int, t.cell_width as int);
    lemma_mul_inequality(j + 1, FIELD_SIZE as int, t.cell_height as int);
    assert((i + 1) * t.cell_width == i * t.cell_width + t.cell_width) by (nonlinear_arith);
    assert((j + 1) * t.cell_height == j * t.cell_height + t.cell_height) by (nonlinear_arith);
    vstd::arithmetic::mul::lemma_mul_nonnegative(i, t.cell_width as int);
    vstd::arithmetic::mul::lemma_mul_nonnegative(j, t.cell_height as int);
}

/// Round trip: converting the center of any grid cell back to a cell returns
/// the same cell, so `pixel_to_cell` inverts `coords_to_center` on the whole
/// grid.
pub proof fn lemma_center_round_trip(t: PointsTranslator, i: int, j: int)
    requires
        t.wf(),
        0 <= i < FIELD_SIZE,
        0 <= j < FIELD_SIZE,
    ensures
        clamp_cell(ceil_div(i * t.cell_width + t.cell_width / 2, t.cell_width as int) - 1) == i,
        clamp_cell(ceil_div(j * t.cell_height + t.cell_height / 2, t.cell_height as int) - 1)
            == j,
{
    lemma_center_round_trip_axis(t.cell_width as int, i);
    lemma_center_round_trip_axis(t.cell_height as int, j);
}

/// One axis of the round trip: for a cell length `d` wider than the two
/// margins, the rounded-up quotient of `k * d + d / 2` by `d` is `k + 1`.
proof fn lemma_center_round_trip_axis(d: int, k: int)
    requires
        2 * MARGIN < d,
        0 <= k < FIELD_SIZE,
    ensures
        clamp_cell(ceil_div(k * d + d / 2, d) - 1) == k,
{
    lemma_fundamental_div_mod(d, 2);
    lemma_mod_bound(d, 2);
    let half = d / 2;
    assert(1 <= half && half <= d - 1);
    assert((k + 1) * d == k * d + d) by (nonlinear_arith);
    lemma_fundamental_div_mod_converse(k * d + half + d - 1, d, k + 1, half - 1);
    assert(ceil_div(k * d + half, d) == k + 1);
}

} // verus!
