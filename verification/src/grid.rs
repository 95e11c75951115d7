use vstd::arithmetic::div_mod::{lemma_fundamental_div_mod, lemma_fundamental_div_mod_converse};
use vstd::pervasive::VecAdditionalExecFns;
use vstd::prelude::*;

verus! {

/// Mathematical model of a grid: a `width` x `height` boolean matrix stored
/// row-major, with cell `(x, y)` at index `y * width + x` and the origin at
/// the bottom-left of the playing field.
#[verifier::ext_equal]
pub struct GridModel {
    pub width: nat,
    pub height: nat,
    pub cells: Seq<bool>,
}

impl GridModel {
    /// The cell sequence covers exactly the advertised rectangle.
    pub open spec fn wf(self) -> bool {
        self.cells.len() == self.width * self.height
    }

    pub open spec fn in_bounds(self, x: int, y: int) -> bool {
        0 <= x < self.width && 0 <= y < self.height
    }

    pub open spec fn cell(self, x: int, y: int) -> bool {
        self.cells[y * self.width + x]
    }
}

/// The grid whose cell `(x, y)` holds `f(x, y)`.
pub open spec fn grid_from_fn(width: nat, height: nat, f: spec_fn(int, int) -> bool) -> GridModel {
    GridModel {
        width,
        height,
        cells: Seq::new(
            width * height,
            |i: int|
                if width > 0 {
                    f(i % (width as int), i / (width as int))
                } else {
                    false
                },
        ),
    }
}

/// Row-major indexing sends an in-bounds coordinate pair to an in-range
/// index, and division and remainder recover the pair.
pub proof fn lemma_rowmajor_index(w: int, h: int, x: int, y: int)
    requires
        0 <= x < w,
        0 <= y < h,
    ensures
        0 <= y * w + x < w * h,
        (y * w + x) % w == x,
        (y * w + x) / w == y,
{
    assert(0 <= y * w + x < w * h) by (nonlinear_arith)
        requires
            0 <= x < w,
            0 <= y < h,
    ;
    lemma_fundamental_div_mod_converse(y * w + x, w, y, x);
}

/// Reading a cell of `grid_from_fn(width, height, f)` gives `f` back.
pub proof fn lemma_grid_from_fn(width: nat, height: nat, f: spec_fn(int, int) -> bool, x: int, y: int)
    requires
        0 <= x < width,
        0 <= y < height,
    ensures
        grid_from_fn(width, height, f).wf(),
        grid_from_fn(width, height, f).cell(x, y) == f(x, y),
{
    lemma_rowmajor_index(width as int, height as int, x, y);
}

/// Two well-formed grids of the same dimensions that agree on every
/// in-bounds cell are equal.
pub proof fn lemma_grid_eq(a: GridModel, b: GridModel)
    requires
        a.wf(),
        b.wf(),
        a.width == b.width,
        a.height == b.height,
        forall|x: int, y: int| a.in_bounds(x, y) ==> a.cell(x, y) == b.cell(x, y),
    ensures
        a == b,
{
    let w = a.width as int;
    let h = a.height as int;
    assert forall|i: int| 0 <= i < a.cells.len() implies a.cells[i] == b.cells[i] by {
        assert(w > 0) by (nonlinear_arith)
            requires
                0 <= i < w * h,
                0 <= w,
                0 <= h,
        ;
        let x = i % w;
        let y = i / w;
        lemma_fundamental_div_mod(i, w);
        assert(0 <= x < w) by (nonlinear_arith)
            requires
                w > 0,
                0 <= i,
                x == i % w,
        ;
        assert(0 <= y < h) by (nonlinear_arith)
            requires
                w > 0,
                0 <= x < w,
                i == w * y + x,
                0 <= i < w * h,
        ;
        lemma_rowmajor_index(w, h, x, y);
        assert(a.cell(x, y) == b.cell(x, y));
    }
    assert(a.cells =~= b.cells);
    assert(a =~= b);
}

/// One colliding position: `a`'s cell `(x, y)` is set, and so is the cell of
/// `b` it lands on after translating by the offset.
pub open spec fn hit(a: GridModel, b: GridModel, ox: int, oy: int, x: int, y: int) -> bool {
    a.in_bounds(x, y) && b.in_bounds(x + ox, y + oy) && a.cell(x, y) && b.cell(x + ox, y + oy)
}

/// `a` placed at offset `(ox, oy)` overlaps a set cell of `b`. Cells of `a`
/// that fall outside `b`'s bounds never contribute.
pub open spec fn collides_spec(a: GridModel, b: GridModel, ox: int, oy: int) -> bool {
    exists|x: int, y: int| hit(a, b, ox, oy, x, y)
}

/// The cell of `src`, placed at offset `(ox, oy)`, that lands on target cell
/// `(tx, ty)` exists and is set.
pub open spec fn covers(src: GridModel, ox: int, oy: int, tx: int, ty: int) -> bool {
    src.in_bounds(tx - ox, ty - oy) && src.cell(tx - ox, ty - oy)
}

/// The destination grid after stamping `src` onto `dst` at offset
/// `(ox, oy)`: a logical OR merge that never clears a set cell and ignores
/// source cells landing outside `dst`.
pub open spec fn merged(dst: GridModel, src: GridModel, ox: int, oy: int) -> GridModel {
    grid_from_fn(
        dst.width,
        dst.height,
        |x: int, y: int| dst.cell(x, y) || covers(src, ox, oy, x, y),
    )
}

pub proof fn lemma_merged_cell(dst: GridModel, src: GridModel, ox: int, oy: int, x: int, y: int)
    requires
        dst.in_bounds(x, y),
    ensures
        merged(dst, src, ox, oy).wf(),
        merged(dst, src, ox, oy).cell(x, y) == (dst.cell(x, y) || covers(src, ox, oy, x, y)),
{
    lemma_grid_from_fn(
        dst.width,
        dst.height,
        |x: int, y: int| dst.cell(x, y) || covers(src, ox, oy, x, y),
        x,
        y,
    );
}

/// Stamping one grid onto another never clears a set destination cell and
/// never changes the destination's dimensions: source cells landing outside
/// them are dropped.
pub proof fn lemma_merge_preserves_set_cells(
    dst: GridModel,
    src: GridModel,
    ox: int,
    oy: int,
    x: int,
    y: int,
)
    requires
        dst.in_bounds(x, y),
        dst.cell(x, y),
    ensures
        merged(dst, src, ox, oy).cell(x, y),
        merged(dst, src, ox, oy).width == dst.width,
        merged(dst, src, ox, oy).height == dst.height,
        merged(dst, src, ox, oy).cells.len() == dst.width * dst.height,
{
    lemma_merged_cell(dst, src, ox, oy, x, y);
}

/// Every cell of row `y` is set.
pub open spec fn row_complete(g: GridModel, y: int) -> bool {
    forall|x: int| 0 <= x < g.width ==> g.cell(x, y)
}

/// The grid after zeroing every complete row in place. Rows above a cleared
/// row are deliberately not shifted down.
pub open spec fn cleared(g: GridModel) -> GridModel {
    grid_from_fn(g.width, g.height, |x: int, y: int| !row_complete(g, y) && g.cell(x, y))
}

pub proof fn lemma_cleared_cell(g: GridModel, x: int, y: int)
    requires
        g.in_bounds(x, y),
    ensures
        cleared(g).wf(),
        cleared(g).cell(x, y) == (!row_complete(g, y) && g.cell(x, y)),
{
    lemma_grid_from_fn(g.width, g.height, |x: int, y: int| !row_complete(g, y) && g.cell(x, y), x, y);
}

/// How many of the rows below `y` are complete.
pub open spec fn complete_rows_below(g: GridModel, y: int) -> nat
    decreases y,
{
    if y <= 0 {
        0
    } else {
        complete_rows_below(g, y - 1) + (if row_complete(g, y - 1) {
            1nat
        } else {
            0nat
        })
    }
}

pub proof fn lemma_complete_rows_below_le(g: GridModel, y: int)
    ensures
        complete_rows_below(g, y) <= (if y >= 0 {
            y
        } else {
            0
        }),
    decreases y,
{
    if y > 0 {
        lemma_complete_rows_below_le(g, y - 1);
    }
}


/// How many entries of the sequence are set.
pub open spec fn count_true(s: Seq<bool>) -> nat
    decreases s.len(),
{
    if s.len() == 0 {
        0
    } else {
        count_true(s.drop_last()) + (if s.last() {
            1nat
        } else {
            0nat
        })
    }
}

/// Pointwise implication between equal-length sequences never lowers the
/// count of set entries.
pub proof fn lemma_count_true_le(a: Seq<bool>, b: Seq<bool>)
    requires
        a.len() == b.len(),
        forall|i: int| 0 <= i < a.len() && a[i] ==> b[i],
    ensures
        count_true(a) <= count_true(b),
    decreases a.len(),
{
    if a.len() > 0 {
        assert forall|i: int| 0 <= i < a.drop_last().len() && a.drop_last()[i] implies b.drop_last()[i] by {
            assert(a.drop_last()[i] == a[i]);
            assert(b.drop_last()[i] == b[i]);
        }
        lemma_count_true_le(a.drop_last(), b.drop_last());
        assert(a.last() ==> b.last());
    }
}

/// Pointwise implication plus one entry set only on the right makes the
/// count of set entries strictly larger on the right.
pub proof fn lemma_count_true_lt(a: Seq<bool>, b: Seq<bool>, j: int)
    requires
        a.len() == b.len(),
        forall|i: int| 0 <= i < a.len() && a[i] ==> b[i],
        0 <= j < a.len(),
        !a[j],
        b[j],
    ensures
        count_true(a) < count_true(b),
    decreases a.len(),
{
    assert forall|i: int| 0 <= i < a.drop_last().len() && a.drop_last()[i] implies b.drop_last()[i] by {
        assert(a.drop_last()[i] == a[i]);
        assert(b.drop_last()[i] == b[i]);
    }
    if j == a.len() - 1 {
        lemma_count_true_le(a.drop_last(), b.drop_last());
    } else {
        lemma_count_true_lt(a.drop_last(), b.drop_last(), j);
        assert(a.last() ==> b.last());
    }
}

/// A coordinate-wise implication between same-sized well-formed grids is an
/// index-wise implication between their cell sequences.
pub proof fn lemma_cell_implies_index(a: GridModel, b: GridModel)
    requires
        a.wf(),
        b.wf(),
        a.width == b.width,
        a.height == b.height,
        forall|x: int, y: int| a.in_bounds(x, y) && a.cell(x, y) ==> b.cell(x, y),
    ensures
        forall|i: int| 0 <= i < a.cells.len() && a.cells[i] ==> b.cells[i],
{
    let w = a.width as int;
    let h = a.height as int;
    assert forall|i: int| 0 <= i < a.cells.len() && a.cells[i] implies b.cells[i] by {
        assert(w > 0) by (nonlinear_arith)
            requires
                0 <= i < w * h,
                0 <= w,
                0 <= h,
        ;
        let x = i % w;
        let y = i / w;
        lemma_fundamental_div_mod(i, w);
        assert(0 <= x < w) by (nonlinear_arith)
            requires
                w > 0,
                0 <= i,
                x == i % w,
        ;
        assert(0 <= y < h) by (nonlinear_arith)
            requires
                w > 0,
                0 <= x < w,
                i == w * y + x,
                0 <= i < w * h,
        ;
        lemma_rowmajor_index(w, h, x, y);
        assert(a.cell(x, y) ==> b.cell(x, y));
    }
}

/// The out-of-range signal returned by the checked accessor: the offending
/// coordinate together with the grid's dimensions.
#[derive(Clone, Copy, PartialEq, Eq, Structural, Debug)]
pub struct OutOfBounds {
    pub x: usize,
    pub y: usize,
    pub width: usize,
    pub height: usize,
}

/// A fixed-size boolean matrix; the playing field and every piece shape are
/// values of this type.
pub struct Grid {
    pub width: usize,
    pub height: usize,
    pub data: Vec<bool>,
}

impl View for Grid {
    type V = GridModel;

    open spec fn view(&self) -> GridModel {
        GridModel { width: self.width as nat, height: self.height as nat, cells: self.data@ }
    }
}

impl Grid {
    /// Wrap an existing row-major cell vector; the caller must supply exactly
    /// `width * height` cells.
    pub fn of_data(dim: (usize, usize), data: Vec<bool>) -> (g: Grid)
        requires
            dim.0 * dim.1 == data@.len(),
        ensures
            g@ == (GridModel { width: dim.0 as nat, height: dim.1 as nat, cells: data@ }),
            g@.wf(),
    {
        Grid { width: dim.0, height: dim.1, data }
    }

    /// A grid with every cell clear.
    pub fn new(dim: (usize, usize)) -> (g: Grid)
        requires
            dim.0 * dim.1 <= usize::MAX,
        ensures
            g@.wf(),
            g@.width == dim.0,
            g@.height == dim.1,
            forall|x: int, y: int| g@.in_bounds(x, y) ==> !g@.cell(x, y),
    {
        let n = dim.0 * dim.1;
        let mut data: Vec<bool> = Vec::new();
        for i in 0..n
            invariant
                data@.len() == i,
                forall|j: int| 0 <= j < i ==> !data@[j],
        {
            data.push(false);
        }
        let g = Grid::of_data(dim, data);
        proof {
            assert forall|x: int, y: int| g@.in_bounds(x, y) implies !g@.cell(x, y) by {
                lemma_rowmajor_index(g@.width as int, g@.height as int, x, y);
            }
        }
        g
    }

    /// The row-major index of `(x, y)`, or the out-of-range signal.
    fn offset(&self, x: usize, y: usize) -> (r: Result<usize, OutOfBounds>)
        requires
            self@.wf(),
        ensures
            match r {
                Ok(i) => self@.in_bounds(x as int, y as int) && i == y * self.width + x && i
                    < self.data.len(),
                Err(e) => !self@.in_bounds(x as int, y as int) && e == (OutOfBounds {
                    x,
                    y,
                    width: self.width,
                    height: self.height,
                }),
            },
    {
        if x < self.width && y < self.height {
            let n = self.data.len();
            proof {
                lemma_rowmajor_index(self.width as int, self.height as int, x as int, y as int);
                assert(y * self.width + x < n);
            }
            Ok(y * self.width + x)
        } else {
            Err(OutOfBounds { x, y, width: self.width, height: self.height })
        }
    }

    /// Checked lookup: the cell at `(x, y)`, or the out-of-range signal.
    pub fn get(&mut self, x: usize, y: usize) -> (r: Result<bool, OutOfBounds>)
        requires
            old(self)@.wf(),
        ensures
            *final(self) == *old(self),
            match r {
                Ok(b) => final(self)@.in_bounds(x as int, y as int) && b == final(self)@.cell(
                    x as int,
                    y as int,
                ),
                Err(e) => !final(self)@.in_bounds(x as int, y as int) && e == (OutOfBounds {
                    x,
                    y,
                    width: final(self).width,
                    height: final(self).height,
                }),
            },
    {
        match self.offset(x, y) {
            Ok(i) => Ok(self.data[i]),
            Err(e) => Err(e),
        }
    }

    /// Unchecked read; callers must stay in bounds.
    pub fn cell(&self, x: usize, y: usize) -> (b: bool)
        requires
            self@.wf(),
            self@.in_bounds(x as int, y as int),
        ensures
            b == self@.cell(x as int, y as int),
    {
        let n = self.data.len();
        proof {
            lemma_rowmajor_index(self.width as int, self.height as int, x as int, y as int);
            assert(y * self.width + x < n);
        }
        let i = y * self.width + x;
        self.data[i]
    }

    /// Unchecked write; callers must stay in bounds. Leaves every other cell
    /// and the dimensions unchanged.
    pub fn set_cell(&mut self, x: usize, y: usize, v: bool)
        requires
            old(self)@.wf(),
            old(self)@.in_bounds(x as int, y as int),
        ensures
            final(self)@.wf(),
            final(self)@.width == old(self)@.width,
            final(self)@.height == old(self)@.height,
            final(self)@.cell(x as int, y as int) == v,
            forall|tx: int, ty: int|
                old(self)@.in_bounds(tx, ty) && !(tx == x as int && ty == y as int)
                    ==> final(self)@.cell(tx, ty) == old(self)@.cell(tx, ty),
    {
        let n = self.data.len();
        proof {
            lemma_rowmajor_index(self.width as int, self.height as int, x as int, y as int);
            assert(y * self.width + x < n);
        }
        let i = y * self.width + x;
        self.data.set(i, v);
        proof {
            assert forall|tx: int, ty: int|
                old(self)@.in_bounds(tx, ty) && !(tx == x as int && ty == y as int) implies self@.cell(
                tx,
                ty,
            ) == old(self)@.cell(tx, ty) by {
                lemma_rowmajor_index(self.width as int, self.height as int, tx, ty);
            }
        }
    }

    /// True iff this grid, placed at the given offset, overlaps a set cell of
    /// `other`. Only the overlapping sub-region is tested: cells that fall
    /// outside `other`'s bounds never contribute a collision.
    pub fn collides(&self, other: &Grid, offset: (usize, usize)) -> (r: bool)
        requires
            self@.wf(),
            other@.wf(),
        ensures
            r == collides_spec(self@, other@, offset.0 as int, offset.1 as int),
    {
        let ox = offset.0;
        let oy = offset.1;
        for x in 0..self.width
            invariant
                self@.wf(),
                other@.wf(),
                ox == offset.0,
                oy == offset.1,
                forall|x2: int, y2: int|
                    0 <= x2 < x ==> !hit(self@, other@, ox as int, oy as int, x2, y2),
        {
            for y in 0..self.height
                invariant
                    self@.wf(),
                    other@.wf(),
                    ox == offset.0,
                    oy == offset.1,
                    x < self.width,
                    forall|x2: int, y2: int|
                        0 <= x2 < x ==> !hit(self@, other@, ox as int, oy as int, x2, y2),
                    forall|y2: int| 0 <= y2 < y ==> !hit(self@, other@, ox as int, oy as int, x as int, y2),
            {
                if self.cell(x, y) && ox < other.width && x < other.width - ox && oy < other.height
                    && y < other.height - oy {
                    if other.cell(x + ox, y + oy) {
                        proof {
                            assert(hit(self@, other@, ox as int, oy as int, x as int, y as int));
                        }
                        return true;
                    }
                }
                proof {
                    assert(!hit(self@, other@, ox as int, oy as int, x as int, y as int));
                }
            }
        }
        proof {
            assert forall|x2: int, y2: int| !hit(self@, other@, ox as int, oy as int, x2, y2) by {
                if hit(self@, other@, ox as int, oy as int, x2, y2) {
                    assert(self@.in_bounds(x2, y2));
                }
            }
        }
        false
    }

    /// Stamp this grid onto `other` at the given offset: every set cell of
    /// this grid sets the translated cell of `other`. Set cells of `other`
    /// are never cleared, and source cells landing outside `other`'s bounds
    /// are dropped silently.
    pub fn copy_into(&self, other: &mut Grid, offset: (usize, usize))
        requires
            self@.wf(),
            old(other)@.wf(),
        ensures
            final(other)@ == merged(old(other)@, self@, offset.0 as int, offset.1 as int),
            final(other)@.wf(),
            final(other)@.width == old(other)@.width,
            final(other)@.height == old(other)@.height,
            forall|tx: int, ty: int|
                old(other)@.in_bounds(tx, ty)
                    ==> final(other)@.cell(tx, ty) == (old(other)@.cell(tx, ty) || covers(
                    self@,
                    offset.0 as int,
                    offset.1 as int,
                    tx,
                    ty,
                )),
    {
        let ox = offset.0;
        let oy = offset.1;
        let ghost dst0 = other@;
        for x in 0..self.width
            invariant
                self@.wf(),
                other@.wf(),
                ox == offset.0,
                oy == offset.1,
                other@.width == dst0.width,
                other@.height == dst0.height,
                dst0.wf(),
                forall|tx: int, ty: int|
                    dst0.in_bounds(tx, ty)
                        ==> other@.cell(tx, ty) == (dst0.cell(tx, ty) || covers_below(
                        self@,
                        ox as int,
                        oy as int,
                        tx,
                        ty,
                        x as int,
                        0,
                    )),
        {
            for y in 0..self.height
                invariant
                    self@.wf(),
                    other@.wf(),
                    ox == offset.0,
                    oy == offset.1,
                    x < self.width,
                    other@.width == dst0.width,
                    other@.height == dst0.height,
                    dst0.wf(),
                    forall|tx: int, ty: int|
                        dst0.in_bounds(tx, ty)
                            ==> other@.cell(tx, ty) == (dst0.cell(tx, ty) || covers_below(
                            self@,
                            ox as int,
                            oy as int,
                            tx,
                            ty,
                            x as int,
                            y as int,
                        )),
            {
                let ghost pre = other@;
                if self.cell(x, y) && ox < other.width && x < other.width - ox && oy < other.height
                    && y < other.height - oy {
                    other.set_cell(x + ox, y + oy, true);
                }
                proof {
                    assert forall|tx: int, ty: int| dst0.in_bounds(tx, ty) implies other@.cell(tx, ty)
                        == (dst0.cell(tx, ty) || covers_below(
                        self@,
                        ox as int,
                        oy as int,
                        tx,
                        ty,
                        x as int,
                        y as int + 1,
                    )) by {
                        assert(pre.cell(tx, ty) == (dst0.cell(tx, ty) || covers_below(
                            self@,
                            ox as int,
                            oy as int,
                            tx,
                            ty,
                            x as int,
                            y as int,
                        )));
                    }
                }
            }
        }
        proof {
            let m = merged(dst0, self@, ox as int, oy as int);
            assert forall|tx: int, ty: int| other@.in_bounds(tx, ty) implies other@.cell(tx, ty)
                == m.cell(tx, ty) by {
                assert(dst0.in_bounds(tx, ty));
                assert(other@.cell(tx, ty) == (dst0.cell(tx, ty) || covers_below(
                    self@,
                    ox as int,
                    oy as int,
                    tx,
                    ty,
                    self@.width as int,
                    0,
                )));
                lemma_merged_cell(dst0, self@, ox as int, oy as int, tx, ty);
            }
            lemma_grid_eq(other@, m);
        }
    }
}

/// `covers`, restricted to the source cells strictly before column `px`,
/// plus those in column `px` strictly below row `py`: the part of the stamp
/// a column-major sweep has already applied.
pub open spec fn covers_below(
    src: GridModel,
    ox: int,
    oy: int,
    tx: int,
    ty: int,
    px: int,
    py: int,
) -> bool {
    covers(src, ox, oy, tx, ty) && (tx - ox < px || (tx - ox == px && ty - oy < py))
}

impl PartialEq for Grid {
    /// Structural equality: same dimensions and the same cells.
    fn eq(&self, other: &Grid) -> (r: bool) {
        if self.width != other.width || self.height != other.height || self.data.len()
            != other.data.len() {
            return false;
        }
        for i in 0..self.data.len()
            invariant
                self.data.len() == other.data.len(),
                forall|j: int| 0 <= j < i ==> self.data@[j] == other.data@[j],
        {
            if self.data[i] != other.data[i] {
                return false;
            }
        }
        proof {
            assert(self.data@ =~= other.data@);
        }
        true
    }
}

impl vstd::std_specs::cmp::PartialEqSpecImpl for Grid {
    open spec fn obeys_eq_spec() -> bool {
        true
    }

    open spec fn eq_spec(&self, other: &Grid) -> bool {
        self.width == other.width && self.height == other.height && self.data@ == other.data@
    }
}

} // verus!
