use crate::grid::{lemma_rowmajor_index, Grid, GridModel};
use vstd::arithmetic::mul::lemma_mul_inequality;
use vstd::prelude::*;

verus! {

/// The combined on/off state of field cell `(x, y)` with a piece grid
/// overlaid at offset `(px, py)`: set iff the field cell is set or the piece
/// covers it with a set cell.
pub open spec fn overlay_cell(
    grid: GridModel,
    piece: GridModel,
    px: int,
    py: int,
    x: int,
    y: int,
) -> bool {
    grid.cell(x, y) || (px <= x && x - px < piece.width && py <= y && y - py < piece.height
        && piece.cell(x - px, y - py))
}

/// The pixels emitted for one source cell scaled by `(sx, sy)`: every pixel
/// of the `sx` x `sy` rectangle anchored at `(cx, cy)`, column by column,
/// all carrying the cell's state `v`.
pub open spec fn pixel_block(cx: int, cy: int, v: bool, sx: int, sy: int) -> Seq<
    (usize, usize, bool),
> {
    Seq::new((sx * sy) as nat, |j: int| (((cx + j / sy) as usize, (cy + j % sy) as usize, v)))
}

/// Emit one scaled cell: append `pixel_block(cx, cy, v, sx, sy)` to `out`.
pub(crate) fn push_block(
    out: &mut Vec<(usize, usize, bool)>,
    cx: usize,
    cy: usize,
    v: bool,
    sx: usize,
    sy: usize,
)
    requires
        cx + sx <= usize::MAX,
        cy + sy <= usize::MAX,
    ensures
        final(out)@ == old(out)@ + pixel_block(cx as int, cy as int, v, sx as int, sy as int),
{
    let ghost base = out@;
    let ghost block = pixel_block(cx as int, cy as int, v, sx as int, sy as int);
    proof {
        assert(block.len() == sx * sy);
        assert((0 as int) * (sy as int) == 0) by (nonlinear_arith);
        assert(base + block.subrange(0, 0) =~= base);
    }
    for i in 0..sx
        invariant
            cx + sx <= usize::MAX,
            cy + sy <= usize::MAX,
            block == pixel_block(cx as int, cy as int, v, sx as int, sy as int),
            block.len() == sx * sy,
            out@ == base + block.subrange(0, i as int * sy as int),
    {
        proof {
            lemma_mul_inequality(i as int, sx as int, sy as int);
            assert(sx as int * sy as int == sy as int * sx as int) by (nonlinear_arith);
        }
        for j in 0..sy
            invariant
                cx + sx <= usize::MAX,
                cy + sy <= usize::MAX,
                i < sx,
                block == pixel_block(cx as int, cy as int, v, sx as int, sy as int),
                block.len() == sx * sy,
                out@ == base + block.subrange(0, i as int * sy as int + j as int),
        {
            proof {
                lemma_rowmajor_index(sy as int, sx as int, j as int, i as int);
                assert(sx as int * sy as int == sy as int * sx as int) by (nonlinear_arith);
                let blen: int = block.len() as int;
                assert(0 <= i as int * sy as int + j as int);
                assert(i as int * sy as int + (j as int) < blen);
                assert(block[i as int * sy as int + j as int] == (((cx + i) as usize, (cy
                    + j) as usize, v)));
                assert(base + block.subrange(0, i as int * sy as int + j as int + 1) =~= (base
                    + block.subrange(0, i as int * sy as int + j as int)).push(
                    ((cx + i) as usize, (cy + j) as usize, v),
                ));
            }
            out.push((cx + i, cy + j, v));
        }
        proof {
            assert(i as int * sy as int + sy as int == (i + 1) as int * sy as int) by (nonlinear_arith);
        }
    }
    proof {
        assert(block.subrange(0, sx as int * sy as int) =~= block);
    }
}

/// The pixels of one source row `y`, for the columns below `x`, in the
/// terminal overlay projection: column `x2` lands at canvas position
/// `((x2 + xo) * sx, (h - y + 1 + yo) * sy)` before sub-pixel offsets.
pub open spec fn row_pixels(
    g: GridModel,
    p: GridModel,
    px: int,
    py: int,
    xo: int,
    yo: int,
    sx: int,
    sy: int,
    y: int,
    x: int,
) -> Seq<(usize, usize, bool)>
    decreases x,
{
    if x <= 0 {
        Seq::empty()
    } else {
        row_pixels(g, p, px, py, xo, yo, sx, sy, y, x - 1) + pixel_block(
            (x - 1 + xo) * sx,
            (g.height - y + 1 + yo) * sy,
            overlay_cell(g, p, px, py, x - 1, y),
            sx,
            sy,
        )
    }
}

/// The pixels of the first `k` emitted rows of the terminal overlay
/// projection; rows are emitted from the top of the field downwards, so the
/// `k`-th emitted row is source row `height - k`.
pub open spec fn rows_pixels(
    g: GridModel,
    p: GridModel,
    px: int,
    py: int,
    xo: int,
    yo: int,
    sx: int,
    sy: int,
    k: int,
) -> Seq<(usize, usize, bool)>
    decreases k,
{
    if k <= 0 {
        Seq::empty()
    } else {
        rows_pixels(g, p, px, py, xo, yo, sx, sy, k - 1) + row_pixels(
            g,
            p,
            px,
            py,
            xo,
            yo,
            sx,
            sy,
            g.height - k,
            g.width as int,
        )
    }
}

/// The whole terminal overlay projection: every row of the field, top to
/// bottom, with the piece grid overlaid.
pub open spec fn draw_pixels(
    g: GridModel,
    p: GridModel,
    px: int,
    py: int,
    xo: int,
    yo: int,
    sx: int,
    sy: int,
) -> Seq<(usize, usize, bool)> {
    rows_pixels(g, p, px, py, xo, yo, sx, sy, g.height as int)
}

/// A read-only drawing view over a field grid with the active piece's grid
/// overlaid at its position.
pub struct Draw<'a> {
    pub grid: &'a Grid,
    pub piece_grid: &'a Grid,
    pub piece_offset: (usize, usize),
}

impl Draw<'_> {
    /// Project the field-plus-piece overlay onto a pixel canvas: one entry
    /// per scaled pixel, rows emitted top to bottom with the vertical axis
    /// flipped for top-down display surfaces, each entry carrying its canvas
    /// coordinate and on/off state.
    pub fn draw_grid(&self, off: (usize, usize), scale: (usize, usize)) -> (out: Vec<
        (usize, usize, bool),
    >)
        requires
            self.grid@.wf(),
            self.piece_grid@.wf(),
            self.grid@.width + off.0 <= usize::MAX,
            (self.grid@.width + off.0) * scale.0 <= usize::MAX,
            self.grid@.height + 2 + off.1 <= usize::MAX,
            (self.grid@.height + 2 + off.1) * scale.1 <= usize::MAX,
        ensures
            out@ == draw_pixels(
                self.grid@,
                self.piece_grid@,
                self.piece_offset.0 as int,
                self.piece_offset.1 as int,
                off.0 as int,
                off.1 as int,
                scale.0 as int,
                scale.1 as int,
            ),
    {
        let w = self.grid.width;
        let h = self.grid.height;
        let (x_off, y_off) = off;
        let (scale_x, scale_y) = scale;
        let (px, py) = self.piece_offset;
        let ghost g = self.grid@;
        let ghost p = self.piece_grid@;
        let mut out: Vec<(usize, usize, bool)> = Vec::new();
        for k in 0..h
            invariant
                g == self.grid@,
                p == self.piece_grid@,
                g.wf(),
                p.wf(),
                w == g.width,
                h == g.height,
                px == self.piece_offset.0,
                py == self.piece_offset.1,
                g.width + x_off <= usize::MAX,
                (g.width + x_off) * scale_x <= usize::MAX,
                g.height + 2 + y_off <= usize::MAX,
                (g.height + 2 + y_off) * scale_y <= usize::MAX,
                out@ == rows_pixels(
                    g,
                    p,
                    px as int,
                    py as int,
                    x_off as int,
                    y_off as int,
                    scale_x as int,
                    scale_y as int,
                    k as int,
                ),
        {
            let y = h - 1 - k;
            for x in 0..w
                invariant
                    g == self.grid@,
                    p == self.piece_grid@,
                    g.wf(),
                    p.wf(),
                    w == g.width,
                    h == g.height,
                    px == self.piece_offset.0,
                    py == self.piece_offset.1,
                    k < h,
                    y == h - 1 - k,
                    g.width + x_off <= usize::MAX,
                    (g.width + x_off) * scale_x <= usize::MAX,
                    g.height + 2 + y_off <= usize::MAX,
                    (g.height + 2 + y_off) * scale_y <= usize::MAX,
                    out@ == rows_pixels(
                        g,
                        p,
                        px as int,
                        py as int,
                        x_off as int,
                        y_off as int,
                        scale_x as int,
                        scale_y as int,
                        k as int,
                    ) + row_pixels(
                        g,
                        p,
                        px as int,
                        py as int,
                        x_off as int,
                        y_off as int,
                        scale_x as int,
                        scale_y as int,
                        y as int,
                        x as int,
                    ),
            {
                let in_piece = if x >= px && x - px < self.piece_grid.width && y >= py && y - py
                    < self.piece_grid.height {
                    self.piece_grid.cell(x - px, y - py)
                } else {
                    false
                };
                let is_set = self.grid.cell(x, y) || in_piece;
                proof {
                    assert(is_set == overlay_cell(g, p, px as int, py as int, x as int, y as int));
                    let cxi: int = x as int + x_off as int;
                    let cyi: int = (h - y) as int + 1 + y_off as int;
                    lemma_mul_inequality(cxi + 1, (w + x_off) as int, scale_x as int);
                    lemma_mul_inequality(cyi + 1, (h + 2 + y_off) as int, scale_y as int);
                    assert(cxi * (scale_x as int) + scale_x as int == (cxi + 1) * (
                    scale_x as int)) by (nonlinear_arith);
                    assert(cyi * (scale_y as int) + scale_y as int == (cyi + 1) * (
                    scale_y as int)) by (nonlinear_arith);
                }
                let cx = (x + x_off) * scale_x;
                let cy = ((h - y) + 1 + y_off) * scale_y;
                push_block(&mut out, cx, cy, is_set, scale_x, scale_y);
                proof {
                    assert(out@ =~= rows_pixels(
                        g,
                        p,
                        px as int,
                        py as int,
                        x_off as int,
                        y_off as int,
                        scale_x as int,
                        scale_y as int,
                        k as int,
                    ) + row_pixels(
                        g,
                        p,
                        px as int,
                        py as int,
                        x_off as int,
                        y_off as int,
                        scale_x as int,
                        scale_y as int,
                        y as int,
                        x as int + 1,
                    ));
                }
            }
            proof {
                assert(g.height - (k + 1) == y as int);
            }
        }
        out
    }
}

} // verus!
