//! Frame geometry: the list of fills to paint for one frame, computed from
//! the game state, the canvas size, and the pointer position.

use vstd::prelude::*;
use vstd::arithmetic::div_mod::{
    lemma_fundamental_div_mod_converse, lemma_mod_bound, lemma_multiply_divide_lt,
};
use crate::{FIELD_SIZE, MARGIN};
use crate::game::{Dices, GameState};
use crate::geometry::{ceil_div, clamp_cell, PixelPos, PointsTranslator, Rect};

verus! {

/// One of the fill colors the renderer uses.
#[derive(Debug, Clone, Copy, PartialEq, Eq, Structural)]
pub enum FillColor {
    Black,
    White,
    LightGray,
    Red,
    MidGray,
    Green,
}

/// The two fills to paint for one cell: the full background rectangle in one
/// color, then the inset content rectangle in another.
#[derive(Debug, Clone, Copy, PartialEq, Eq, Structural)]
pub struct CellFill {
    pub i: usize,
    pub j: usize,
    pub background: Rect,
    pub content: Rect,
    pub background_color: FillColor,
    pub content_color: FillColor,
}

/// All geometry of one frame: the base board, the roll highlight, and the
/// hover highlight.
#[derive(Debug, Clone)]
pub struct FrameGeometry {
    pub base: Vec<CellFill>,
    pub highlight: Vec<CellFill>,
    pub hover: Option<CellFill>,
}

/// The translator that a canvas of the given pixel size yields.
pub open spec fn frame_translator(width: u64, height: u64) -> PointsTranslator {
    PointsTranslator {
        cell_width: (width as int / (FIELD_SIZE as int)) as u64,
        cell_height: (height as int / (FIELD_SIZE as int)) as u64,
    }
}

/// The fill of cell `(i, j)` in the given colors.
pub open spec fn cell_fill_of(t: PointsTranslator, i: int, j: int, bg: FillColor, ct: FillColor)
    -> CellFill {
    CellFill {
        i: i as usize,
        j: j as usize,
        background: t.spec_cell_background(i, j),
        content: t.spec_cell_content(i, j),
        background_color: bg,
        content_color: ct,
    }
}

/// The base-board fill of cell `(i, j)`: black background, white content.
pub open spec fn base_fill(t: PointsTranslator, i: int, j: int) -> CellFill {
    cell_fill_of(t, i, j, FillColor::Black, FillColor::White)
}

/// The roll-highlight fill of cell `(i, j)`: light gray background, red
/// content.
pub open spec fn highlight_fill(t: PointsTranslator, i: int, j: int) -> CellFill {
    cell_fill_of(t, i, j, FillColor::LightGray, FillColor::Red)
}

/// The hover fill of cell `(i, j)`: mid gray background, green content.
pub open spec fn hover_fill(t: PointsTranslator, i: int, j: int) -> CellFill {
    cell_fill_of(t, i, j, FillColor::MidGray, FillColor::Green)
}

/// The highlight sequence that a roll `d` produces: the cells `(i, j)` with
/// `i < d.0` and `j < d.1`, row-major.
pub open spec fn highlight_matches(h: Seq<CellFill>, t: PointsTranslator, d: Dices) -> bool {
    &&& h.len() == d.0 * d.1
    &&& forall|k: int| 0 <= k < h.len() ==> h[k] == highlight_fill(
        t,
        k / (d.1 as int),
        k % (d.1 as int),
    )
}

/// The cell under the cursor, as the symmetric clamped conversion gives it.
pub open spec fn hover_cell_x(t: PointsTranslator, pos: PixelPos) -> int {
    clamp_cell(ceil_div(pos.x as int, t.cell_width as int) - 1)
}

/// The cell under the cursor, as the symmetric clamped conversion gives it.
pub open spec fn hover_cell_y(t: PointsTranslator, pos: PixelPos) -> int {
    clamp_cell(ceil_div(pos.y as int, t.cell_height as int) - 1)
}

/// Computes every fill of one frame from the game state, the canvas size,
/// and the pointer position: the base board first, then the roll highlight,
/// then the hover highlight for a cursor inside the canvas.
pub fn render_frame(
    state: &GameState,
    width: u64,
    height: u64,
    cursor: Option<PixelPos>,
) -> (frame: FrameGeometry)
    requires
        state.wf(),
        (2 * MARGIN + 1) * (FIELD_SIZE as int) <= width,
        (2 * MARGIN + 1) * (FIELD_SIZE as int) <= height,
    ensures
        ({
            let t = frame_translator(width, height);
            &&& frame.base@.len() == FIELD_SIZE * FIELD_SIZE
            &&& forall|k: int| 0 <= k < frame.base@.len() ==> frame.base@[k] == base_fill(
                t,
                k / (FIELD_SIZE as int),
                k % (FIELD_SIZE as int),
            )
            &&& match state.dices {
                Some(d) => highlight_matches(frame.highlight@, t, d),
                None => frame.highlight@.len() == 0,
            }
            &&& match cursor {
                Some(pos) => if pos.x < width && pos.y < height {
                    frame.hover == Some(hover_fill(t, hover_cell_x(t, pos), hover_cell_y(t, pos)))
                } else {
                    frame.hover is None
                },
                None => frame.hover is None,
            }
        }),
{
    let translator = PointsTranslator::new(width, height);
    let ghost t = frame_translator(width, height);
    proof {
        assert(translator == t);
    }

    let mut base: Vec<CellFill> = Vec::new();
    let mut k: usize = 0;
    while k < FIELD_SIZE * FIELD_SIZE
        invariant
            translator == t,
            translator.wf(),
            k <= FIELD_SIZE * FIELD_SIZE,
            base@.len() == k,
            forall|m: int| 0 <= m < k ==> base@[m] == base_fill(
                t,
                m / (FIELD_SIZE as int),
                m % (FIELD_SIZE as int),
            ),
        decreases FIELD_SIZE * FIELD_SIZE - k,
    {
        let i = k / FIELD_SIZE;
        let j = k % FIELD_SIZE;
        proof {
            lemma_multiply_divide_lt(k as int, FIELD_SIZE as int, FIELD_SIZE as int);
            lemma_mod_bound(k as int, FIELD_SIZE as int);
        }
        let (bg, ct) = translator.get_cell_fill(i, j);
        base.push(
            CellFill {
                i,
                j,
                background: bg,
                content: ct,
                background_color: FillColor::Black,
                content_color: FillColor::White,
            },
        );
        k = k + 1;
    }

    let mut highlight: Vec<CellFill> = Vec::new();
    match state.dices {
        Some(d) => {
            let x = d.0 as usize;
            let y = d.1 as usize;
            proof {
                assert(x * y <= 36) by (nonlinear_arith)
                    requires
                        0 <= x <= 6,
                        0 <= y <= 6,
                ;
            }
            let total = x * y;
            let mut k: usize = 0;
            while k < total
                invariant
                    translator == t,
                    translator.wf(),
                    state.dices == Some(d),
                    d.wf(),
                    x == d.0,
                    y == d.1,
                    total == x * y,
                    k <= total,
                    highlight@.len() == k,
                    forall|m: int| 0 <= m < k ==> highlight@[m] == highlight_fill(
                        t,
                        m / (d.1 as int),
                        m % (d.1 as int),
                    ),
                decreases total - k,
            {
                let i = k / y;
                let j = k % y;
                proof {
                    assert((y as int) * (x as int) == (x as int) * (y as int))
                        by (nonlinear_arith);
                    lemma_multiply_divide_lt(k as int, y as int, x as int);
                    lemma_mod_bound(k as int, y as int);
                }
                let (bg, ct) = translator.get_cell_fill(i, j);
                highlight.push(
                    CellFill {
                        i,
                        j,
                        background: bg,
                        content: ct,
                        background_color: FillColor::LightGray,
                        content_color: FillColor::Red,
                    },
                );
                k = k + 1;
            }
        },
        None => {},
    }

    let hover: Option<CellFill> = match cursor {
        Some(pos) => if pos.x < width && pos.y < height {
            let (ci, cj) = translator.pixel_to_cell(&pos);
            let (bg, ct) = translator.get_cell_fill(ci, cj);
            Some(
                CellFill {
                    i: ci,
                    j: cj,
                    background: bg,
                    content: ct,
                    background_color: FillColor::MidGray,
                    content_color: FillColor::Green,
                },
            )
        } else {
            None
        },
        None => None,
    };

    FrameGeometry { base, highlight, hover }
}

/// After a roll, the highlighted region covers exactly the cells `(i, j)`
/// with `i` below the first die and `j` below the second, and no others.
pub proof fn lemma_highlight_covers_roll(h: Seq<CellFill>, t: PointsTranslator, d: Dices, i: int, j: int)
    requires
        d.wf(),
        highlight_matches(h, t, d),
        0 <= i,
        0 <= j,
    ensures
        (exists|k: int| 0 <= k < h.len() && h[k].i == i && h[k].j == j) <==> (i < d.0 && j
            < d.1),
{
    let y = d.1 as int;
    if exists|k: int| 0 <= k < h.len() && h[k].i == i && h[k].j == j {
        let k = choose|k: int| 0 <= k < h.len() && h[k].i == i && h[k].j == j;
        lemma_multiply_divide_lt(k, y, d.0 as int);
        lemma_mod_bound(k, y);
        assert((d.1 as int) * (d.0 as int) == (d.0 as int) * (d.1 as int)) by (nonlinear_arith);
        assert(h[k] == highlight_fill(t, k / y, k % y));
        assert(h[k].i == k / y && h[k].j == k % y);
    }
    if i < d.0 && j < d.1 {
        let k = i * y + j;
        assert(i * y + j < d.0 as int * y) by (nonlinear_arith)
            requires
                0 <= i,
                i < d.0 as int,
                0 <= j < y,
        ;
        lemma_fundamental_div_mod_converse(k, y, i, j);
        assert(0 <= k < h.len());
        assert(h[k] == highlight_fill(t, k / y, k % y));
        assert(h[k].i == i && h[k].j == j);
    }
}

} // verus!
