use crate::draw_helper::{overlay_cell, pixel_block, push_block};
use crate::grid::{
    cleared, collides_spec, complete_rows_below, count_true, covers, hit, lemma_cell_implies_index,
    lemma_cleared_cell, lemma_complete_rows_below_le, lemma_count_true_lt, lemma_grid_eq,
    lemma_merged_cell, lemma_rowmajor_index, merged, row_complete, Grid, GridModel,
};
use crate::piece::{
    lemma_piece_model_wf, lemma_spawn_shape_facts, piece_model, Piece, PieceModel, PieceSelector,
    Rotation,
};
use crate::rng::seed_rng;
use vstd::arithmetic::mul::lemma_mul_inequality;
use vstd::prelude::*;

verus! {

/// Field width in cells.
pub const FIELD_WIDTH: usize = 10;

/// Field height in cells.
pub const FIELD_HEIGHT: usize = 20;

/// Spawn anchor of a freshly drawn piece.
pub const SPAWN_X: usize = 5;

/// Spawn anchor of a freshly drawn piece.
pub const SPAWN_Y: usize = 19;

/// The minimum score for removing a single grid row.
pub const BASE_SCORE_UNIT: usize = 1000;

/// The latched input snapshot, held until overwritten and consumed once per
/// tick.
#[derive(Clone, Copy, PartialEq, Eq, Structural, Debug)]
pub struct KeyState {
    pub left: bool,
    pub right: bool,
    pub rotate: bool,
}

impl Default for KeyState {
    /// All keys released.
    fn default() -> (k: KeyState)
        ensures
            k == (KeyState { left: false, right: false, rotate: false }),
    {
        KeyState { left: false, right: false, rotate: false }
    }
}

/// Mathematical model of a running game: the field, both pieces, the
/// latched input and the score. The pseudo-random source is deliberately
/// not part of the model.
#[verifier::ext_equal]
pub struct StateModel {
    pub piece: PieceModel,
    pub next_piece: PieceModel,
    pub grid: GridModel,
    pub keys: KeyState,
    pub score: nat,
}

impl StateModel {
    pub open spec fn wf(self) -> bool {
        &&& self.grid.wf()
        &&& self.grid.width == FIELD_WIDTH
        &&& self.grid.height == FIELD_HEIGHT
        &&& self.piece.wf()
        &&& self.next_piece.wf()
    }
}

/// Mathematical model of the whole game: still running, or over.
#[verifier::ext_equal]
pub enum GameModel {
    Running(StateModel),
    Finished,
}

/// The state after resolving a latched rotate input: the rotation is
/// committed only if the next orientation does not collide with the field
/// at the piece's current position; otherwise the input is dropped.
pub open spec fn rotated(s: StateModel) -> StateModel {
    if s.keys.rotate && !collides_spec(s.piece.next_grid(), s.grid, s.piece.x, s.piece.y) {
        StateModel { piece: PieceModel { rot: s.piece.rot.spec_next(), ..s.piece }, ..s }
    } else {
        s
    }
}

/// The state after resolving latched horizontal input: both keys (or
/// neither) cancel out, and a single direction is applied only if the piece
/// stays within `[0, width)` and does not collide at the shifted position.
pub open spec fn h_moved(s: StateModel) -> StateModel {
    let p = s.piece;
    if s.keys.left && !s.keys.right {
        if p.x > 0 && !collides_spec(p.current(), s.grid, p.x - 1, p.y) {
            StateModel { piece: PieceModel { x: p.x - 1, ..p }, ..s }
        } else {
            s
        }
    } else if s.keys.right && !s.keys.left {
        if p.x + p.current().width < s.grid.width && !collides_spec(p.current(), s.grid, p.x + 1, p.y) {
            StateModel { piece: PieceModel { x: p.x + 1, ..p }, ..s }
        } else {
            s
        }
    } else {
        s
    }
}

/// The piece locks this tick: it rests on the bottom row, or moving down one
/// row would collide with field content.
pub open spec fn will_lock(s: StateModel) -> bool {
    s.piece.y == 0 || collides_spec(s.piece.current(), s.grid, s.piece.x, s.piece.y - 1)
}

/// The field after stamping the active piece onto it at its position.
pub open spec fn merged_grid(s: StateModel) -> GridModel {
    merged(s.grid, s.piece.current(), s.piece.x, s.piece.y)
}

/// The score gained by a lock: `n*n * width * BASE_SCORE_UNIT` for `n`
/// simultaneously completed rows — a quadratic combo bonus.
pub open spec fn score_gain(g: GridModel) -> int {
    let n = complete_rows_below(g, g.height as int) as int;
    n * n * (g.width as int) * (BASE_SCORE_UNIT as int)
}

/// The score after adding a gain, saturating at the machine limit.
pub open spec fn bumped_score(score: nat, gain: int) -> nat {
    if score + gain <= usize::MAX {
        (score + gain) as nat
    } else {
        usize::MAX as nat
    }
}

/// The state after a lock: the piece is stamped into the field, complete
/// rows are zeroed in place, the score is bumped, the queued piece becomes
/// active and `fresh` is queued next.
pub open spec fn after_lock(s: StateModel, fresh: PieceModel) -> StateModel {
    StateModel {
        piece: s.next_piece,
        next_piece: fresh,
        grid: cleared(merged_grid(s)),
        keys: s.keys,
        score: bumped_score(s.score, score_gain(merged_grid(s))),
    }
}

/// The freshly spawned active piece already overlaps field content: the
/// loss condition.
pub open spec fn spawn_collides(s: StateModel) -> bool {
    collides_spec(s.piece.current(), s.grid, s.piece.x, s.piece.y)
}

/// One full tick from a running state, given the piece `fresh` that the
/// random source would queue on a lock: rotation, horizontal movement, then
/// gravity — either a one-row descent, or a lock followed by respawn, with
/// the game ending the instant the spawned piece collides.
pub open spec fn spec_tick(s: StateModel, fresh: PieceModel) -> GameModel {
    let m = h_moved(rotated(s));
    if !will_lock(m) {
        GameModel::Running(StateModel { piece: PieceModel { y: m.piece.y - 1, ..m.piece }, ..m })
    } else {
        let a = after_lock(m, fresh);
        if spawn_collides(a) {
            GameModel::Finished
        } else {
            GameModel::Running(a)
        }
    }
}

/// The piece is one a spawn could produce: some shape, anchored at the
/// spawn coordinate in the initial orientation.
pub open spec fn is_spawn(p: PieceModel) -> bool {
    exists|sel: PieceSelector| p == piece_model(sel, SPAWN_X as int, SPAWN_Y as int)
}


/// The pixels of one field column `x`, for the first `k` emitted rows of
/// the device projection; rows are emitted top to bottom, and source row
/// `height - k` lands at canvas position `(x*sx + xo, (k-1)*sy + yo)`
/// before sub-pixel offsets.
pub open spec fn col_pixels(
    g: GridModel,
    p: GridModel,
    px: int,
    py: int,
    xo: int,
    yo: int,
    sx: int,
    sy: int,
    x: int,
    k: int,
) -> Seq<(usize, usize, bool)>
    decreases k,
{
    if k <= 0 {
        Seq::empty()
    } else {
        col_pixels(g, p, px, py, xo, yo, sx, sy, x, k - 1) + pixel_block(
            x * sx + xo,
            (k - 1) * sy + yo,
            overlay_cell(g, p, px, py, x, g.height - k),
            sx,
            sy,
        )
    }
}

/// The pixels of the first `x` columns of the device projection.
pub open spec fn cols_pixels(
    g: GridModel,
    p: GridModel,
    px: int,
    py: int,
    xo: int,
    yo: int,
    sx: int,
    sy: int,
    x: int,
) -> Seq<(usize, usize, bool)>
    decreases x,
{
    if x <= 0 {
        Seq::empty()
    } else {
        cols_pixels(g, p, px, py, xo, yo, sx, sy, x - 1) + col_pixels(
            g,
            p,
            px,
            py,
            xo,
            yo,
            sx,
            sy,
            x - 1,
            g.height as int,
        )
    }
}

/// The whole device projection of field-plus-active-piece: every column of
/// the field, each top to bottom, scaled and offset.
pub open spec fn game_pixels(
    g: GridModel,
    p: GridModel,
    px: int,
    py: int,
    xo: int,
    yo: int,
    sx: int,
    sy: int,
) -> Seq<(usize, usize, bool)> {
    cols_pixels(g, p, px, py, xo, yo, sx, sy, g.width as int)
}


/// A tick that locks the piece and completes exactly `n` rows increases
/// the score by exactly `n * n * width * BASE_SCORE_UNIT`, as long as the
/// sum stays within the machine limit; a tick that does not lock leaves the
/// score unchanged.
pub proof fn lemma_tick_score(s: StateModel, fresh: PieceModel)
    ensures
        ({
            let m = h_moved(rotated(s));
            let g = merged_grid(m);
            let n = complete_rows_below(g, g.height as int) as int;
            &&& (!will_lock(m) ==> match spec_tick(s, fresh) {
                GameModel::Running(t) => t.score == s.score,
                GameModel::Finished => false,
            })
            &&& (will_lock(m) && s.score + n * n * g.width * BASE_SCORE_UNIT <= usize::MAX
                ==> after_lock(m, fresh).score == s.score + n * n * g.width * BASE_SCORE_UNIT)
        }),
{
    let m = h_moved(rotated(s));
    assert(m.score == s.score);
}

/// The score never decreases across a tick of a game whose score is a
/// machine value.
pub proof fn lemma_tick_score_monotone(s: StateModel, fresh: PieceModel)
    requires
        s.score <= usize::MAX,
    ensures
        match spec_tick(s, fresh) {
            GameModel::Running(t) => t.score >= s.score,
            GameModel::Finished => true,
        },
{
    let m = h_moved(rotated(s));
    let g = merged_grid(m);
    let n = complete_rows_below(g, g.height as int) as int;
    assert(n * n * (g.width as int) * (BASE_SCORE_UNIT as int) >= 0) by (nonlinear_arith)
        requires
            n >= 0,
    ;
}

/// With no input latched and room below, a tick does nothing but lower the
/// piece one row: the descent step behind the guarantee that a game given
/// no favorable input keeps falling until pieces lock and stack up.
pub proof fn lemma_unforced_descent(s: StateModel, fresh: PieceModel)
    requires
        s.keys == (KeyState { left: false, right: false, rotate: false }),
        !will_lock(s),
    ensures
        spec_tick(s, fresh) == GameModel::Running(
            StateModel { piece: PieceModel { y: s.piece.y - 1, ..s.piece }, ..s },
        ),
{
}

/// A piece as the no-input game keeps it: anchored in the spawn column in
/// its initial orientation, within the field's height, with a grid at most
/// four cells wide that holds a set cell in its bottom row.
pub open spec fn unforced_piece(p: PieceModel) -> bool {
    &&& p.wf()
    &&& p.rot == Rotation::R0
    &&& p.x == SPAWN_X
    &&& 0 <= p.y <= SPAWN_Y
    &&& 1 <= p.current().width <= 4
    &&& 1 <= p.current().height
    &&& exists|bx: int| 0 <= bx < p.current().width && p.current().cells[bx]
}

/// The invariant of a game driven by gravity alone: field content only in
/// the four columns a spawned piece can cover, both pieces spawn-shaped,
/// and an active piece that does not overlap the field.
pub open spec fn unforced_inv(s: StateModel) -> bool {
    &&& s.wf()
    &&& unforced_piece(s.piece)
    &&& is_spawn(s.next_piece)
    &&& (forall|x: int, y: int|
        s.grid.in_bounds(x, y) && s.grid.cell(x, y) ==> SPAWN_X <= x < SPAWN_X + 4)
    &&& !collides_spec(s.piece.current(), s.grid, s.piece.x, s.piece.y)
}

/// A piece a spawn could produce is in the unforced shape.
pub proof fn lemma_spawn_piece_unforced(p: PieceModel)
    requires
        is_spawn(p),
    ensures
        unforced_piece(p),
{
    let sel = choose|sel: PieceSelector| p == piece_model(sel, SPAWN_X as int, SPAWN_Y as int);
    lemma_piece_model_wf(sel, SPAWN_X as int, SPAWN_Y as int);
    lemma_spawn_shape_facts(sel);
}

/// A fresh game with an empty field and two spawned pieces satisfies the
/// unforced invariant.
pub proof fn lemma_new_game_unforced(s: StateModel)
    requires
        s.wf(),
        is_spawn(s.piece),
        is_spawn(s.next_piece),
        forall|x: int, y: int| s.grid.in_bounds(x, y) ==> !s.grid.cell(x, y),
    ensures
        unforced_inv(s),
{
    lemma_spawn_piece_unforced(s.piece);
    assert forall|x: int, y: int|
        !hit(s.piece.current(), s.grid, s.piece.x, s.piece.y, x, y) by {
        if hit(s.piece.current(), s.grid, s.piece.x, s.piece.y, x, y) {
            assert(s.grid.in_bounds(x + s.piece.x, y + s.piece.y));
        }
    }
}

/// Every tick of a game in the unforced invariant that receives no input
/// either finishes the game, strictly increases the number of set field
/// cells, or lowers the piece one row over an unchanged field — and keeps
/// the invariant. Set cells never exceed the field's area and the piece's
/// height never goes below the bottom row, so a game left without input
/// runs out of ticks that are not `Finished`.
pub proof fn lemma_unforced_tick_progress(s: StateModel, fresh: PieceModel)
    requires
        unforced_inv(s),
        s.keys == (KeyState { left: false, right: false, rotate: false }),
        is_spawn(fresh),
    ensures
        match spec_tick(s, fresh) {
            GameModel::Finished => true,
            GameModel::Running(t) => {
                &&& unforced_inv(t)
                &&& t.keys == s.keys
                &&& (count_true(t.grid.cells) > count_true(s.grid.cells) || (t.grid == s.grid
                    && t.piece.y < s.piece.y))
            },
        },
{
    let m = h_moved(rotated(s));
    assert(m == s);
    if !will_lock(s) {
        assert(s.piece.y != 0);
    } else {
        let cur = s.piece.current();
        let px = s.piece.x;
        let py = s.piece.y;
        let mg = merged_grid(s);
        assert forall|x: int, y: int| mg.in_bounds(x, y) implies mg.cell(x, y) == (s.grid.cell(
            x,
            y,
        ) || covers(cur, px, py, x, y)) by {
            assert(s.grid.in_bounds(x, y));
            lemma_merged_cell(s.grid, cur, px, py, x, y);
        }
        lemma_merged_cell(s.grid, cur, px, py, 0, 0);
        assert(mg.wf());
        // the stamp stays inside the spawn columns
        assert forall|x: int, y: int| mg.in_bounds(x, y) && mg.cell(x, y) implies SPAWN_X <= x
            < SPAWN_X + 4 by {
            if covers(cur, px, py, x, y) {
                assert(cur.in_bounds(x - px, y - py));
            }
        }
        // column 0 is empty, so no row is ever complete
        assert forall|y: int| 0 <= y < mg.height implies !row_complete(mg, y) by {
            assert(mg.in_bounds(0, y));
            assert(!mg.cell(0, y));
        }
        // hence clearing changes nothing
        assert forall|x: int, y: int| cleared(mg).in_bounds(x, y) implies cleared(mg).cell(x, y)
            == mg.cell(x, y) by {
            lemma_cleared_cell(mg, x, y);
        }
        lemma_cleared_cell(mg, 0, 0);
        lemma_grid_eq(cleared(mg), mg);
        // the piece's bottom-row set cell lands on an empty field cell
        let bx = choose|bx: int| 0 <= bx < cur.width && cur.cells[bx];
        assert(0 * (cur.width as int) == 0) by (nonlinear_arith);
        assert(cur.cell(bx, 0) == cur.cells[bx]);
        let wx = px + bx;
        assert(s.grid.in_bounds(wx, py));
        assert(covers(cur, px, py, wx, py));
        assert(!s.grid.cell(wx, py)) by {
            if s.grid.cell(wx, py) {
                assert(hit(cur, s.grid, px, py, bx, 0));
                assert(collides_spec(cur, s.grid, px, py));
            }
        }
        assert(mg.cell(wx, py));
        // so the merged field has strictly more set cells
        assert forall|x: int, y: int| s.grid.in_bounds(x, y) && s.grid.cell(x, y) implies mg.cell(
            x,
            y,
        ) by {}
        lemma_cell_implies_index(s.grid, mg);
        lemma_rowmajor_index(s.grid.width as int, s.grid.height as int, wx, py);
        let j = py * (s.grid.width as int) + wx;
        assert(!s.grid.cells[j]);
        assert(mg.cells[j]);
        lemma_count_true_lt(s.grid.cells, mg.cells, j);
        // the swapped-in pieces keep the invariant
        lemma_spawn_piece_unforced(s.next_piece);
        lemma_spawn_piece_unforced(fresh);
    }
}

/// A horizontal move request that would push the piece outside
/// `[0, width)` or into a colliding position is rejected: the move phase
/// leaves the whole state, position included, unchanged.
pub proof fn lemma_blocked_move_keeps_position(s: StateModel)
    requires
        ({
            let p = s.piece;
            ||| (s.keys.left && !s.keys.right && (p.x == 0 || collides_spec(
                p.current(),
                s.grid,
                p.x - 1,
                p.y,
            )))
            ||| (s.keys.right && !s.keys.left && (p.x + p.current().width >= s.grid.width
                || collides_spec(p.current(), s.grid, p.x + 1, p.y)))
        }),
    ensures
        h_moved(s) == s,
{
}

/// A running game: the field, the active and queued piece, the latched
/// input, the score, and the pseudo-random source used at spawn time.
pub struct TetrisState {
    pub piece: Piece,
    pub next_piece: Piece,
    pub grid: Grid,
    pub key_state: KeyState,
    pub score: usize,
    pub rng: rand::rngs::SmallRng,
}

impl View for TetrisState {
    type V = StateModel;

    open spec fn view(&self) -> StateModel {
        StateModel {
            piece: self.piece@,
            next_piece: self.next_piece@,
            grid: self.grid@,
            keys: self.key_state,
            score: self.score as nat,
        }
    }
}

impl TetrisState {
    pub open spec fn wf(self) -> bool {
        self@.wf()
    }

    /// Swap in the queued piece and draw a fresh one for the queue.
    fn respawn_piece(&mut self)
        ensures
            final(self).piece == old(self).next_piece,
            is_spawn(final(self).next_piece@),
            final(self).next_piece@.wf(),
            final(self).grid == old(self).grid,
            final(self).key_state == old(self).key_state,
            final(self).score == old(self).score,
    {
        core::mem::swap(&mut self.piece, &mut self.next_piece);
        self.next_piece = Piece::random_piece((SPAWN_X, SPAWN_Y), &mut self.rng);
    }

    /// Project field-plus-active-piece onto a pixel canvas: one entry per
    /// scaled pixel of every cell, columns left to right and each column top
    /// to bottom, carrying its canvas coordinate and on/off state.
    pub fn draw_game_grid(&self, off: (usize, usize), scale: (usize, usize)) -> (out: Vec<
        (usize, usize, bool),
    >)
        requires
            self.wf(),
            self.grid@.width * scale.0 + off.0 <= usize::MAX,
            self.grid@.height * scale.1 + off.1 <= usize::MAX,
        ensures
            out@ == game_pixels(
                self.grid@,
                self@.piece.current(),
                self@.piece.x,
                self@.piece.y,
                off.0 as int,
                off.1 as int,
                scale.0 as int,
                scale.1 as int,
            ),
    {
        let w = self.grid.width;
        let h = self.grid.height;
        let (x_off, y_off) = off;
        let (scale_x, scale_y) = scale;
        let px = self.piece.x;
        let py = self.piece.y;
        let piece_grid = self.piece.current_rotation();
        let ghost g = self.grid@;
        let ghost p = self@.piece.current();
        let mut out: Vec<(usize, usize, bool)> = Vec::new();
        for x in 0..w
            invariant
                g == self.grid@,
                p == piece_grid@,
                p == self@.piece.current(),
                g.wf(),
                p.wf(),
                w == g.width,
                h == g.height,
                px == self@.piece.x,
                py == self@.piece.y,
                g.width * scale_x + x_off <= usize::MAX,
                g.height * scale_y + y_off <= usize::MAX,
                out@ == cols_pixels(
                    g,
                    p,
                    px as int,
                    py as int,
                    x_off as int,
                    y_off as int,
                    scale_x as int,
                    scale_y as int,
                    x as int,
                ),
        {
            for k in 0..h
                invariant
                    g == self.grid@,
                    p == piece_grid@,
                    p == self@.piece.current(),
                    g.wf(),
                    p.wf(),
                    w == g.width,
                    h == g.height,
                    x < w,
                    px == self@.piece.x,
                    py == self@.piece.y,
                    g.width * scale_x + x_off <= usize::MAX,
                    g.height * scale_y + y_off <= usize::MAX,
                    out@ == cols_pixels(
                        g,
                        p,
                        px as int,
                        py as int,
                        x_off as int,
                        y_off as int,
                        scale_x as int,
                        scale_y as int,
                        x as int,
                    ) + col_pixels(
                        g,
                        p,
                        px as int,
                        py as int,
                        x_off as int,
                        y_off as int,
                        scale_x as int,
                        scale_y as int,
                        x as int,
                        k as int,
                    ),
            {
                let y = h - 1 - k;
                let in_piece = if x >= px && x - px < piece_grid.width && y >= py && y - py
                    < piece_grid.height {
                    piece_grid.cell(x - px, y - py)
                } else {
                    false
                };
                let is_set = self.grid.cell(x, y) || in_piece;
                proof {
                    assert(is_set == overlay_cell(g, p, px as int, py as int, x as int, y as int));
                    lemma_mul_inequality(x as int + 1, w as int, scale_x as int);
                    lemma_mul_inequality(k as int + 1, h as int, scale_y as int);
                    assert(x as int * (scale_x as int) + scale_x as int == (x as int + 1) * (
                    scale_x as int)) by (nonlinear_arith);
                    assert(k as int * (scale_y as int) + scale_y as int == (k as int + 1) * (
                    scale_y as int)) by (nonlinear_arith);
                }
                let cx = x * scale_x + x_off;
                let cy = k * scale_y + y_off;
                push_block(&mut out, cx, cy, is_set, scale_x, scale_y);
                proof {
                    assert(g.height - (k + 1) == y as int);
                    assert(out@ =~= cols_pixels(
                        g,
                        p,
                        px as int,
                        py as int,
                        x_off as int,
                        y_off as int,
                        scale_x as int,
                        scale_y as int,
                        x as int,
                    ) + col_pixels(
                        g,
                        p,
                        px as int,
                        py as int,
                        x_off as int,
                        y_off as int,
                        scale_x as int,
                        scale_y as int,
                        x as int,
                        k as int + 1,
                    ));
                }
            }
        }
        out
    }

    /// Zero every complete row in place (rows above stay put) and add the
    /// quadratic combo score for the number of rows cleared this pass.
    fn remove_complete_rows(&mut self)
        requires
            old(self).grid@.wf(),
            old(self).grid@.width == FIELD_WIDTH,
            old(self).grid@.height == FIELD_HEIGHT,
        ensures
            final(self).grid@ == cleared(old(self).grid@),
            final(self).score == bumped_score(old(self).score as nat, score_gain(old(self).grid@)),
            final(self).piece == old(self).piece,
            final(self).next_piece == old(self).next_piece,
            final(self).key_state == old(self).key_state,
    {
        let ghost g0 = self.grid@;
        let mut rows_cleared: usize = 0;
        let w = self.grid.width;
        let h = self.grid.height;
        for y in 0..h
            invariant
                self.grid@.wf(),
                self.grid@.width == w,
                self.grid@.height == h,
                g0.wf(),
                g0.width == w,
                g0.height == h,
                w == FIELD_WIDTH,
                h == FIELD_HEIGHT,
                rows_cleared == complete_rows_below(g0, y as int),
                rows_cleared <= y,
                forall|xx: int, yy: int|
                    g0.in_bounds(xx, yy) && yy >= y ==> self.grid@.cell(xx, yy) == g0.cell(xx, yy),
                forall|xx: int, yy: int|
                    g0.in_bounds(xx, yy) && yy < y ==> self.grid@.cell(xx, yy) == (!row_complete(
                        g0,
                        yy,
                    ) && g0.cell(xx, yy)),
                self.piece == old(self).piece,
                self.next_piece == old(self).next_piece,
                self.key_state == old(self).key_state,
                self.score == old(self).score,
        {
            let mut complete = true;
            for x in 0..w
                invariant
                    self.grid@.wf(),
                    self.grid@.width == w,
                    self.grid@.height == h,
                    g0.width == w,
                    g0.height == h,
                    y < h,
                    complete == (forall|xx: int| 0 <= xx < x ==> g0.cell(xx, y as int)),
                    forall|xx: int, yy: int|
                        g0.in_bounds(xx, yy) && yy >= y ==> self.grid@.cell(xx, yy) == g0.cell(
                            xx,
                            yy,
                        ),
            {
                let c = self.grid.cell(x, y);
                proof {
                    assert(c == g0.cell(x as int, y as int));
                }
                complete = complete && c;
            }
            if complete {
                proof {
                    assert(row_complete(g0, y as int));
                }
                let ghost gmid = self.grid@;
                for x in 0..w
                    invariant
                        self.grid@.wf(),
                        self.grid@.width == w,
                        self.grid@.height == h,
                        g0.width == w,
                        g0.height == h,
                        y < h,
                        forall|xx: int, yy: int|
                            g0.in_bounds(xx, yy) && yy != y ==> self.grid@.cell(xx, yy)
                                == gmid.cell(xx, yy),
                        forall|xx: int| 0 <= xx < x ==> !self.grid@.cell(xx, y as int),
                        forall|xx: int|
                            x <= xx < w ==> self.grid@.cell(xx, y as int) == gmid.cell(
                                xx,
                                y as int,
                            ),
                        self.piece == old(self).piece,
                        self.next_piece == old(self).next_piece,
                        self.key_state == old(self).key_state,
                        self.score == old(self).score,
                {
                    self.grid.set_cell(x, y, false);
                }
                rows_cleared = rows_cleared + 1;
            } else {
                proof {
                    assert(!row_complete(g0, y as int));
                }
            }
        }
        proof {
            lemma_complete_rows_below_le(g0, h as int);
            assert forall|xx: int, yy: int| cleared(g0).in_bounds(xx, yy) implies self.grid@.cell(
                xx,
                yy,
            ) == cleared(g0).cell(xx, yy) by {
                assert(g0.in_bounds(xx, yy));
                lemma_cleared_cell(g0, xx, yy);
                assert(self.grid@.cell(xx, yy) == (!row_complete(g0, yy) && g0.cell(xx, yy)));
            }
            lemma_grid_eq(self.grid@, cleared(g0));
        }
        proof {
            assert(rows_cleared <= FIELD_HEIGHT);
            assert(rows_cleared * rows_cleared <= 400) by (nonlinear_arith)
                requires
                    rows_cleared <= 20,
            ;
        }
        let gain = rows_cleared * rows_cleared * w * BASE_SCORE_UNIT;
        self.score = self.score.saturating_add(gain);
    }
}

/// The whole game: still running, or over for good. Once `Finished`,
/// every further tick and input is a no-op.
pub enum Tetris {
    Running(TetrisState),
    Finished,
}

impl View for Tetris {
    type V = GameModel;

    open spec fn view(&self) -> GameModel {
        match self {
            Tetris::Running(s) => GameModel::Running(s@),
            Tetris::Finished => GameModel::Finished,
        }
    }
}

impl Tetris {
    pub open spec fn wf(self) -> bool {
        match self {
            Tetris::Running(s) => s.wf(),
            Tetris::Finished => true,
        }
    }

    /// A fresh game: an empty field, two pre-rolled spawn pieces, no input
    /// latched, and a zero score.
    pub fn new() -> (t: Tetris)
        ensures
            t.wf(),
            match t@ {
                GameModel::Running(s) => {
                    &&& s.score == 0
                    &&& s.keys == (KeyState { left: false, right: false, rotate: false })
                    &&& s.grid.width == FIELD_WIDTH
                    &&& s.grid.height == FIELD_HEIGHT
                    &&& forall|x: int, y: int| s.grid.in_bounds(x, y) ==> !s.grid.cell(x, y)
                    &&& is_spawn(s.piece)
                    &&& is_spawn(s.next_piece)
                },
                GameModel::Finished => false,
            },
    {
        let mut rng = seed_rng(31203103120);
        let piece = Piece::random_piece((SPAWN_X, SPAWN_Y), &mut rng);
        let next_piece = Piece::random_piece((SPAWN_X, SPAWN_Y), &mut rng);
        let grid = Grid::new((FIELD_WIDTH, FIELD_HEIGHT));
        Tetris::Running(
            TetrisState {
                piece,
                next_piece,
                grid,
                key_state: KeyState::default(),
                score: 0,
                rng,
            },
        )
    }

    /// Latch the input snapshot, to be considered by every subsequent tick
    /// until overwritten. A finished game ignores it.
    pub fn set_key_state(&mut self, key_state: &KeyState)
        ensures
            old(self).wf() ==> final(self).wf(),
            match old(self)@ {
                GameModel::Running(s) => final(self)@ == GameModel::Running(
                    StateModel { keys: *key_state, ..s },
                ),
                GameModel::Finished => final(self)@ == GameModel::Finished,
            },
    {
        match self {
            Tetris::Running(state) => state.key_state = *key_state,
            Tetris::Finished => {},
        }
    }

    /// Whether the game has reached its terminal state.
    pub fn is_finished(&self) -> (r: bool)
        ensures
            r == (self@ is Finished),
    {
        match self {
            Tetris::Running(_) => false,
            Tetris::Finished => true,
        }
    }

    /// Advance the game one tick: resolve a latched rotation, then latched
    /// horizontal movement, then gravity. A piece that cannot descend locks
    /// into the field, complete rows are cleared and scored, and the queued
    /// piece spawns; the game finishes the instant a spawned piece already
    /// collides. A finished game is left untouched.
    #[verifier::rlimit(100)]
    pub fn update(&mut self)
        requires
            old(self).wf(),
        ensures
            final(self).wf(),
            match old(self)@ {
                GameModel::Finished => final(self)@ == GameModel::Finished,
                GameModel::Running(s) => exists|fresh: PieceModel|
                    is_spawn(fresh) && final(self)@ == #[trigger] spec_tick(s, fresh),
            },
    {
        let mut prev = Tetris::Finished;
        core::mem::swap(self, &mut prev);
        match prev {
            Tetris::Finished => {},
            Tetris::Running(mut state) => {
                let ghost s0 = state@;
                // Apply rotation if the rotate key is latched and the next
                // orientation is free at the current position.
                if state.key_state.rotate {
                    let blocked = state.piece.peek_next_rotation().collides(
                        &state.grid,
                        (state.piece.x, state.piece.y),
                    );
                    if !blocked {
                        state.piece.next_rotation();
                    }
                }
                let ghost s1 = state@;
                proof {
                    assert(s1 == rotated(s0));
                }
                // Apply one horizontal step; opposite keys cancel out, and a
                // move that leaves the field or collides is dropped.
                if state.key_state.left && !state.key_state.right {
                    if state.piece.x > 0 {
                        let blocked = state.piece.current_rotation().collides(
                            &state.grid,
                            (state.piece.x - 1, state.piece.y),
                        );
                        if !blocked {
                            state.piece.x = state.piece.x - 1;
                        }
                    }
                } else if state.key_state.right && !state.key_state.left {
                    let pw = state.piece.current_rotation().width;
                    if pw < state.grid.width && state.piece.x < state.grid.width - pw {
                        let blocked = state.piece.current_rotation().collides(
                            &state.grid,
                            (state.piece.x + 1, state.piece.y),
                        );
                        if !blocked {
                            state.piece.x = state.piece.x + 1;
                        }
                    }
                }
                let ghost s2 = state@;
                proof {
                    assert(s2 == h_moved(s1));
                }
                // Gravity: descend one row, or lock, clear, score, respawn.
                let lock = if state.piece.y == 0 {
                    true
                } else {
                    state.piece.current_rotation().collides(
                        &state.grid,
                        (state.piece.x, state.piece.y - 1),
                    )
                };
                proof {
                    assert(lock == will_lock(s2));
                }
                if !lock {
                    state.piece.y = state.piece.y - 1;
                    *self = Tetris::Running(state);
                    proof {
                        let fresh = piece_model(
                            PieceSelector::Line,
                            SPAWN_X as int,
                            SPAWN_Y as int,
                        );
                        assert(is_spawn(fresh));
                        assert(self@ == spec_tick(s0, fresh));
                    }
                } else {
                    let pos = (state.piece.x, state.piece.y);
                    state.piece.current_rotation().copy_into(&mut state.grid, pos);
                    proof {
                        assert(state.grid@ == merged_grid(s2));
                    }
                    state.remove_complete_rows();
                    state.respawn_piece();
                    let ghost fresh = state.next_piece@;
                    proof {
                        assert(state@ == after_lock(s2, fresh));
                    }
                    let lost = state.piece.current_rotation().collides(
                        &state.grid,
                        (state.piece.x, state.piece.y),
                    );
                    if lost {
                        proof {
                            assert(spec_tick(s0, fresh) == GameModel::Finished);
                        }
                    } else {
                        *self = Tetris::Running(state);
                    }
                }
            },
        }
    }
}

} // verus!
