use crate::grid::{Grid, GridModel};
use crate::rng::draw_index;
use vstd::prelude::*;

verus! {

/// One of the four fixed orientations of a piece, cycled strictly forward.
#[derive(Clone, Copy, PartialEq, Eq, Structural, Debug)]
pub enum Rotation {
    R0,
    R90,
    R180,
    R270,
}

impl Rotation {
    /// The orientation one clockwise step ahead.
    pub open spec fn spec_next(self) -> Rotation {
        match self {
            Rotation::R0 => Rotation::R90,
            Rotation::R90 => Rotation::R180,
            Rotation::R180 => Rotation::R270,
            Rotation::R270 => Rotation::R0,
        }
    }

    /// Advance one step in the rotation cycle.
    pub fn next(&self) -> (r: Rotation)
        ensures
            r == self.spec_next(),
    {
        match self {
            Rotation::R0 => Rotation::R90,
            Rotation::R90 => Rotation::R180,
            Rotation::R180 => Rotation::R270,
            Rotation::R270 => Rotation::R0,
        }
    }
}

/// Advancing the rotation four times returns it to its starting value.
pub proof fn lemma_rotation_cycle(r: Rotation)
    ensures
        r.spec_next().spec_next().spec_next().spec_next() == r,
{
    match r {
        Rotation::R0 => {},
        Rotation::R90 => {},
        Rotation::R180 => {},
        Rotation::R270 => {},
    }
}

/// The seven canonical tetromino shapes.
#[derive(Clone, Copy, PartialEq, Eq, Structural, Debug)]
pub enum PieceSelector {
    Line,
    J,
    L,
    O,
    S,
    T,
    Z,
}

/// The pre-baked bit pattern of a shape in a given orientation. Every
/// rotation state is stored literally rather than computed.
#[verifier::opaque]
pub open spec fn shape_model(sel: PieceSelector, r: Rotation) -> GridModel {
    match sel {
        PieceSelector::Line => match r {
            Rotation::R0 => GridModel { width: 4, height: 1, cells: seq![true, true, true, true] },
            Rotation::R90 => GridModel { width: 1, height: 4, cells: seq![true, true, true, true] },
            Rotation::R180 => GridModel {
                width: 4,
                height: 1,
                cells: seq![true, true, true, true],
            },
            Rotation::R270 => GridModel {
                width: 1,
                height: 4,
                cells: seq![true, true, true, true],
            },
        },
        PieceSelector::J => match r {
            Rotation::R0 => GridModel {
                width: 4,
                height: 2,
                cells: seq![true, false, false, false, true, true, true, true],
            },
            Rotation::R90 => GridModel {
                width: 2,
                height: 4,
                cells: seq![true, true, true, false, true, false, true, false],
            },
            Rotation::R180 => GridModel {
                width: 4,
                height: 2,
                cells: seq![true, true, true, true, false, false, false, true],
            },
            Rotation::R270 => GridModel {
                width: 2,
                height: 4,
                cells: seq![true, false, true, false, true, false, true, true],
            },
        },
        PieceSelector::L => match r {
            Rotation::R0 => GridModel {
                width: 4,
                height: 2,
                cells: seq![false, false, false, true, true, true, true, true],
            },
            Rotation::R90 => GridModel {
                width: 2,
                height: 4,
                cells: seq![true, true, false, true, false, true, false, true],
            },
            Rotation::R180 => GridModel {
                width: 4,
                height: 2,
                cells: seq![true, true, true, true, true, false, false, false],
            },
            Rotation::R270 => GridModel {
                width: 2,
                height: 4,
                cells: seq![false, true, false, true, false, true, true, true],
            },
        },
        PieceSelector::O => GridModel {
            width: 2,
            height: 2,
            cells: seq![true, true, true, true],
        },
        PieceSelector::S => match r {
            Rotation::R0 => GridModel {
                width: 3,
                height: 2,
                cells: seq![false, true, true, true, true, false],
            },
            Rotation::R90 => GridModel {
                width: 2,
                height: 3,
                cells: seq![true, false, true, true, false, true],
            },
            Rotation::R180 => GridModel {
                width: 3,
                height: 2,
                cells: seq![true, true, false, false, true, true],
            },
            Rotation::R270 => GridModel {
                width: 2,
                height: 3,
                cells: seq![false, true, true, true, true, false],
            },
        },
        PieceSelector::T => match r {
            Rotation::R0 => GridModel {
                width: 3,
                height: 2,
                cells: seq![false, true, false, true, true, true],
            },
            Rotation::R90 => GridModel {
                width: 2,
                height: 3,
                cells: seq![true, false, true, true, true, false],
            },
            Rotation::R180 => GridModel {
                width: 3,
                height: 2,
                cells: seq![true, true, true, false, true, false],
            },
            Rotation::R270 => GridModel {
                width: 2,
                height: 3,
                cells: seq![false, true, true, true, false, true],
            },
        },
        PieceSelector::Z => match r {
            Rotation::R0 => GridModel {
                width: 3,
                height: 2,
                cells: seq![true, true, false, false, true, true],
            },
            Rotation::R90 => GridModel {
                width: 2,
                height: 3,
                cells: seq![false, true, true, true, true, false],
            },
            Rotation::R180 => GridModel {
                width: 3,
                height: 2,
                cells: seq![true, true, false, false, true, true],
            },
            Rotation::R270 => GridModel {
                width: 2,
                height: 3,
                cells: seq![false, true, true, true, true, false],
            },
        },
    }
}

/// Mathematical model of a piece: its four orientation grids, the active
/// orientation, and its bottom-left anchor within the field.
#[verifier::ext_equal]
pub struct PieceModel {
    pub r0: GridModel,
    pub r90: GridModel,
    pub r180: GridModel,
    pub r270: GridModel,
    pub rot: Rotation,
    pub x: int,
    pub y: int,
}

impl PieceModel {
    pub open spec fn grid_at(self, r: Rotation) -> GridModel {
        match r {
            Rotation::R0 => self.r0,
            Rotation::R90 => self.r90,
            Rotation::R180 => self.r180,
            Rotation::R270 => self.r270,
        }
    }

    /// The grid of the active orientation.
    pub open spec fn current(self) -> GridModel {
        self.grid_at(self.rot)
    }

    /// The grid one rotation step ahead of the active orientation.
    pub open spec fn next_grid(self) -> GridModel {
        self.grid_at(self.rot.spec_next())
    }

    pub open spec fn wf(self) -> bool {
        self.r0.wf() && self.r90.wf() && self.r180.wf() && self.r270.wf()
    }
}

/// The model of a freshly built piece of shape `sel` anchored at `(x, y)`,
/// in its initial orientation.
pub open spec fn piece_model(sel: PieceSelector, x: int, y: int) -> PieceModel {
    PieceModel {
        r0: shape_model(sel, Rotation::R0),
        r90: shape_model(sel, Rotation::R90),
        r180: shape_model(sel, Rotation::R180),
        r270: shape_model(sel, Rotation::R270),
        rot: Rotation::R0,
        x,
        y,
    }
}

/// Every pre-baked shape grid is well-formed.
pub proof fn lemma_shape_model_wf(sel: PieceSelector, r: Rotation)
    ensures
        shape_model(sel, r).wf(),
{
    reveal(shape_model);
    match sel {
        PieceSelector::Line => match r {
            Rotation::R0 => {
                assert(shape_model(sel, r).cells.len() == 4);
                assert(shape_model(sel, r).width == 4);
                assert(shape_model(sel, r).height == 1);
                assert(shape_model(sel, r).width * shape_model(sel, r).height == 4);
                assert(shape_model(sel, r).wf());
            },
            Rotation::R90 => {
                assert(shape_model(sel, r).cells.len() == 4);
                assert(shape_model(sel, r).width == 1);
                assert(shape_model(sel, r).height == 4);
                assert(shape_model(sel, r).width * shape_model(sel, r).height == 4);
                assert(shape_model(sel, r).wf());
            },
            Rotation::R180 => {
                assert(shape_model(sel, r).cells.len() == 4);
                assert(shape_model(sel, r).width == 4);
                assert(shape_model(sel, r).height == 1);
                assert(shape_model(sel, r).width * shape_model(sel, r).height == 4);
                assert(shape_model(sel, r).wf());
            },
            Rotation::R270 => {
                assert(shape_model(sel, r).cells.len() == 4);
                assert(shape_model(sel, r).width == 1);
                assert(shape_model(sel, r).height == 4);
                assert(shape_model(sel, r).width * shape_model(sel, r).height == 4);
                assert(shape_model(sel, r).wf());
            },
        },
        PieceSelector::J => match r {
            Rotation::R0 => {
                assert(shape_model(sel, r).cells.len() == 8);
                assert(shape_model(sel, r).width == 4);
                assert(shape_model(sel, r).height == 2);
                assert(shape_model(sel, r).width * shape_model(sel, r).height == 8);
                assert(shape_model(sel, r).wf());
            },
            Rotation::R90 => {
                assert(shape_model(sel, r).cells.len() == 8);
                assert(shape_model(sel, r).width == 2);
                assert(shape_model(sel, r).height == 4);
                assert(shape_model(sel, r).width * shape_model(sel, r).height == 8);
                assert(shape_model(sel, r).wf());
            },
            Rotation::R180 => {
                assert(shape_model(sel, r).cells.len() == 8);
                assert(shape_model(sel, r).width == 4);
                assert(shape_model(sel, r).height == 2);
                assert(shape_model(sel, r).width * shape_model(sel, r).height == 8);
                assert(shape_model(sel, r).wf());
            },
            Rotation::R270 => {
                assert(shape_model(sel, r).cells.len() == 8);
                assert(shape_model(sel, r).width == 2);
                assert(shape_model(sel, r).height == 4);
                assert(shape_model(sel, r).width * shape_model(sel, r).height == 8);
                assert(shape_model(sel, r).wf());
            },
        },
        PieceSelector::L => match r {
            Rotation::R0 => {
                assert(shape_model(sel, r).cells.len() == 8);
                assert(shape_model(sel, r).width == 4);
                assert(shape_model(sel, r).height == 2);
                assert(shape_model(sel, r).width * shape_model(sel, r).height == 8);
                assert(shape_model(sel, r).wf());
            },
            Rotation::R90 => {
                assert(shape_model(sel, r).cells.len() == 8);
                assert(shape_model(sel, r).width == 2);
                assert(shape_model(sel, r).height == 4);
                assert(shape_model(sel, r).width * shape_model(sel, r).height == 8);
                assert(shape_model(sel, r).wf());
            },
            Rotation::R180 => {
                assert(shape_model(sel, r).cells.len() == 8);
                assert(shape_model(sel, r).width == 4);
                assert(shape_model(sel, r).height == 2);
                assert(shape_model(sel, r).width * shape_model(sel, r).height == 8);
                assert(shape_model(sel, r).wf());
            },
            Rotation::R270 => {
                assert(shape_model(sel, r).cells.len() == 8);
                assert(shape_model(sel, r).width == 2);
                assert(shape_model(sel, r).height == 4);
                assert(shape_model(sel, r).width * shape_model(sel, r).height == 8);
                assert(shape_model(sel, r).wf());
            },
        },
        PieceSelector::O => match r {
            Rotation::R0 => {
                assert(shape_model(sel, r).cells.len() == 4);
                assert(shape_model(sel, r).width == 2);
                assert(shape_model(sel, r).height == 2);
                assert(shape_model(sel, r).width * shape_model(sel, r).height == 4);
                assert(shape_model(sel, r).wf());
            },
            Rotation::R90 => {
                assert(shape_model(sel, r).cells.len() == 4);
                assert(shape_model(sel, r).width == 2);
                assert(shape_model(sel, r).height == 2);
                assert(shape_model(sel, r).width * shape_model(sel, r).height == 4);
                assert(shape_model(sel, r).wf());
            },
            Rotation::R180 => {
                assert(shape_model(sel, r).cells.len() == 4);
                assert(shape_model(sel, r).width == 2);
                assert(shape_model(sel, r).height == 2);
                assert(shape_model(sel, r).width * shape_model(sel, r).height == 4);
                assert(shape_model(sel, r).wf());
            },
            Rotation::R270 => {
                assert(shape_model(sel, r).cells.len() == 4);
                assert(shape_model(sel, r).width == 2);
                assert(shape_model(sel, r).height == 2);
                assert(shape_model(sel, r).width * shape_model(sel, r).height == 4);
                assert(shape_model(sel, r).wf());
            },
        },
        PieceSelector::S => match r {
            Rotation::R0 => {
                assert(shape_model(sel, r).cells.len() == 6);
                assert(shape_model(sel, r).width == 3);
                assert(shape_model(sel, r).height == 2);
                assert(shape_model(sel, r).width * shape_model(sel, r).height == 6);
                assert(shape_model(sel, r).wf());
            },
            Rotation::R90 => {
                assert(shape_model(sel, r).cells.len() == 6);
                assert(shape_model(sel, r).width == 2);
                assert(shape_model(sel, r).height == 3);
                assert(shape_model(sel, r).width * shape_model(sel, r).height == 6);
                assert(shape_model(sel, r).wf());
            },
            Rotation::R180 => {
                assert(shape_model(sel, r).cells.len() == 6);
                assert(shape_model(sel, r).width == 3);
                assert(shape_model(sel, r).height == 2);
                assert(shape_model(sel, r).width * shape_model(sel, r).height == 6);
                assert(shape_model(sel, r).wf());
            },
            Rotation::R270 => {
                assert(shape_model(sel, r).cells.len() == 6);
                assert(shape_model(sel, r).width == 2);
                assert(shape_model(sel, r).height == 3);
                assert(shape_model(sel, r).width * shape_model(sel, r).height == 6);
                assert(shape_model(sel, r).wf());
            },
        },
        PieceSelector::T => match r {
            Rotation::R0 => {
                assert(shape_model(sel, r).cells.len() == 6);
                assert(shape_model(sel, r).width == 3);
                assert(shape_model(sel, r).height == 2);
                assert(shape_model(sel, r).width * shape_model(sel, r).height == 6);
                assert(shape_model(sel, r).wf());
            },
            Rotation::R90 => {
                assert(shape_model(sel, r).cells.len() == 6);
                assert(shape_model(sel, r).width == 2);
                assert(shape_model(sel, r).height == 3);
                assert(shape_model(sel, r).width * shape_model(sel, r).height == 6);
                assert(shape_model(sel, r).wf());
            },
            Rotation::R180 => {
                assert(shape_model(sel, r).cells.len() == 6);
                assert(shape_model(sel, r).width == 3);
                assert(shape_model(sel, r).height == 2);
                assert(shape_model(sel, r).width * shape_model(sel, r).height == 6);
                assert(shape_model(sel, r).wf());
            },
            Rotation::R270 => {
                assert(shape_model(sel, r).cells.len() == 6);
                assert(shape_model(sel, r).width == 2);
                assert(shape_model(sel, r).height == 3);
                assert(shape_model(sel, r).width * shape_model(sel, r).height == 6);
                assert(shape_model(sel, r).wf());
            },
        },
        PieceSelector::Z => match r {
            Rotation::R0 => {
                assert(shape_model(sel, r).cells.len() == 6);
                assert(shape_model(sel, r).width == 3);
                assert(shape_model(sel, r).height == 2);
                assert(shape_model(sel, r).width * shape_model(sel, r).height == 6);
                assert(shape_model(sel, r).wf());
            },
            Rotation::R90 => {
                assert(shape_model(sel, r).cells.len() == 6);
                assert(shape_model(sel, r).width == 2);
                assert(shape_model(sel, r).height == 3);
                assert(shape_model(sel, r).width * shape_model(sel, r).height == 6);
                assert(shape_model(sel, r).wf());
            },
            Rotation::R180 => {
                assert(shape_model(sel, r).cells.len() == 6);
                assert(shape_model(sel, r).width == 3);
                assert(shape_model(sel, r).height == 2);
                assert(shape_model(sel, r).width * shape_model(sel, r).height == 6);
                assert(shape_model(sel, r).wf());
            },
            Rotation::R270 => {
                assert(shape_model(sel, r).cells.len() == 6);
                assert(shape_model(sel, r).width == 2);
                assert(shape_model(sel, r).height == 3);
                assert(shape_model(sel, r).width * shape_model(sel, r).height == 6);
                assert(shape_model(sel, r).wf());
            },
        },
    }
}

/// The initial orientation of every shape fits the spawn column span and
/// rests on something: its grid is at most four cells wide, at least one
/// cell high, and holds a set cell in its bottom row.
pub proof fn lemma_spawn_shape_facts(sel: PieceSelector)
    ensures
        1 <= shape_model(sel, Rotation::R0).width <= 4,
        1 <= shape_model(sel, Rotation::R0).height,
        shape_model(sel, Rotation::R0).wf(),
        exists|bx: int|
            0 <= bx < shape_model(sel, Rotation::R0).width && shape_model(
                sel,
                Rotation::R0,
            ).cells[bx],
{
    reveal(shape_model);
    lemma_shape_model_wf(sel, Rotation::R0);
    match sel {
        PieceSelector::Line => {
            assert(shape_model(sel, Rotation::R0).cells.len() == 4);
            assert(shape_model(sel, Rotation::R0).width == 4);
            assert(shape_model(sel, Rotation::R0).height == 1);
            assert(shape_model(sel, Rotation::R0).cells[0]);
        },
        PieceSelector::J => {
            assert(shape_model(sel, Rotation::R0).cells.len() == 8);
            assert(shape_model(sel, Rotation::R0).width == 4);
            assert(shape_model(sel, Rotation::R0).height == 2);
            assert(shape_model(sel, Rotation::R0).cells[0]);
        },
        PieceSelector::L => {
            assert(shape_model(sel, Rotation::R0).cells.len() == 8);
            assert(shape_model(sel, Rotation::R0).width == 4);
            assert(shape_model(sel, Rotation::R0).height == 2);
            assert(shape_model(sel, Rotation::R0).cells[3]);
        },
        PieceSelector::O => {
            assert(shape_model(sel, Rotation::R0).cells.len() == 4);
            assert(shape_model(sel, Rotation::R0).width == 2);
            assert(shape_model(sel, Rotation::R0).height == 2);
            assert(shape_model(sel, Rotation::R0).cells[0]);
        },
        PieceSelector::S => {
            assert(shape_model(sel, Rotation::R0).cells.len() == 6);
            assert(shape_model(sel, Rotation::R0).width == 3);
            assert(shape_model(sel, Rotation::R0).height == 2);
            assert(shape_model(sel, Rotation::R0).cells[1]);
        },
        PieceSelector::T => {
            assert(shape_model(sel, Rotation::R0).cells.len() == 6);
            assert(shape_model(sel, Rotation::R0).width == 3);
            assert(shape_model(sel, Rotation::R0).height == 2);
            assert(shape_model(sel, Rotation::R0).cells[1]);
        },
        PieceSelector::Z => {
            assert(shape_model(sel, Rotation::R0).cells.len() == 6);
            assert(shape_model(sel, Rotation::R0).width == 3);
            assert(shape_model(sel, Rotation::R0).height == 2);
            assert(shape_model(sel, Rotation::R0).cells[0]);
        },
    }
}

/// A freshly built piece model is well-formed.
pub proof fn lemma_piece_model_wf(sel: PieceSelector, x: int, y: int)
    ensures
        piece_model(sel, x, y).wf(),
{
    lemma_shape_model_wf(sel, Rotation::R0);
    lemma_shape_model_wf(sel, Rotation::R90);
    lemma_shape_model_wf(sel, Rotation::R180);
    lemma_shape_model_wf(sel, Rotation::R270);
}

/// The four pre-built orientation grids of one piece, keyed by rotation
/// state.
pub struct RotationMap {
    pub r0: Grid,
    pub r90: Grid,
    pub r180: Grid,
    pub r270: Grid,
}

/// A movable shape with pose: four pre-built orientation grids, the active
/// orientation, and the bottom-left anchor `(x, y)` within the field.
pub struct Piece {
    pub rotations: RotationMap,
    pub current_rotation: Rotation,
    pub x: usize,
    pub y: usize,
}

impl View for Piece {
    type V = PieceModel;

    open spec fn view(&self) -> PieceModel {
        PieceModel {
            r0: self.rotations.r0@,
            r90: self.rotations.r90@,
            r180: self.rotations.r180@,
            r270: self.rotations.r270@,
            rot: self.current_rotation,
            x: self.x as int,
            y: self.y as int,
        }
    }
}

fn vec4(b0: bool, b1: bool, b2: bool, b3: bool) -> (v: Vec<bool>)
    ensures
        v@ == seq![b0, b1, b2, b3],
        v@.len() == 4,
{
    let mut v: Vec<bool> = Vec::new();
    v.push(b0);
    v.push(b1);
    v.push(b2);
    v.push(b3);
    proof {
        assert(v@ =~= seq![b0, b1, b2, b3]);
    }
    v
}

fn vec6(b0: bool, b1: bool, b2: bool, b3: bool, b4: bool, b5: bool) -> (v: Vec<bool>)
    ensures
        v@ == seq![b0, b1, b2, b3, b4, b5],
        v@.len() == 6,
{
    let mut v: Vec<bool> = Vec::new();
    v.push(b0);
    v.push(b1);
    v.push(b2);
    v.push(b3);
    v.push(b4);
    v.push(b5);
    proof {
        assert(v@ =~= seq![b0, b1, b2, b3, b4, b5]);
    }
    v
}

fn vec8(
    b0: bool,
    b1: bool,
    b2: bool,
    b3: bool,
    b4: bool,
    b5: bool,
    b6: bool,
    b7: bool,
) -> (v: Vec<bool>)
    ensures
        v@ == seq![b0, b1, b2, b3, b4, b5, b6, b7],
        v@.len() == 8,
{
    let mut v: Vec<bool> = Vec::new();
    v.push(b0);
    v.push(b1);
    v.push(b2);
    v.push(b3);
    v.push(b4);
    v.push(b5);
    v.push(b6);
    v.push(b7);
    proof {
        assert(v@ =~= seq![b0, b1, b2, b3, b4, b5, b6, b7]);
    }
    v
}

fn grid_4x1(b0: bool, b1: bool, b2: bool, b3: bool) -> (g: Grid)
    ensures
        g@ == (GridModel { width: 4, height: 1, cells: seq![b0, b1, b2, b3] }),
{
    Grid::of_data((4, 1), vec4(b0, b1, b2, b3))
}

fn grid_1x4(b0: bool, b1: bool, b2: bool, b3: bool) -> (g: Grid)
    ensures
        g@ == (GridModel { width: 1, height: 4, cells: seq![b0, b1, b2, b3] }),
{
    Grid::of_data((1, 4), vec4(b0, b1, b2, b3))
}

fn grid_2x2(b0: bool, b1: bool, b2: bool, b3: bool) -> (g: Grid)
    ensures
        g@ == (GridModel { width: 2, height: 2, cells: seq![b0, b1, b2, b3] }),
{
    Grid::of_data((2, 2), vec4(b0, b1, b2, b3))
}

fn grid_3x2(b0: bool, b1: bool, b2: bool, b3: bool, b4: bool, b5: bool) -> (g: Grid)
    ensures
        g@ == (GridModel { width: 3, height: 2, cells: seq![b0, b1, b2, b3, b4, b5] }),
{
    Grid::of_data((3, 2), vec6(b0, b1, b2, b3, b4, b5))
}

fn grid_2x3(b0: bool, b1: bool, b2: bool, b3: bool, b4: bool, b5: bool) -> (g: Grid)
    ensures
        g@ == (GridModel { width: 2, height: 3, cells: seq![b0, b1, b2, b3, b4, b5] }),
{
    Grid::of_data((2, 3), vec6(b0, b1, b2, b3, b4, b5))
}

fn grid_4x2(
    b0: bool,
    b1: bool,
    b2: bool,
    b3: bool,
    b4: bool,
    b5: bool,
    b6: bool,
    b7: bool,
) -> (g: Grid)
    ensures
        g@ == (GridModel { width: 4, height: 2, cells: seq![b0, b1, b2, b3, b4, b5, b6, b7] }),
{
    Grid::of_data((4, 2), vec8(b0, b1, b2, b3, b4, b5, b6, b7))
}

fn grid_2x4(
    b0: bool,
    b1: bool,
    b2: bool,
    b3: bool,
    b4: bool,
    b5: bool,
    b6: bool,
    b7: bool,
) -> (g: Grid)
    ensures
        g@ == (GridModel { width: 2, height: 4, cells: seq![b0, b1, b2, b3, b4, b5, b6, b7] }),
{
    Grid::of_data((2, 4), vec8(b0, b1, b2, b3, b4, b5, b6, b7))
}

fn rotations_line() -> (m: RotationMap)
    ensures
        m.r0@ == shape_model(PieceSelector::Line, Rotation::R0),
        m.r90@ == shape_model(PieceSelector::Line, Rotation::R90),
        m.r180@ == shape_model(PieceSelector::Line, Rotation::R180),
        m.r270@ == shape_model(PieceSelector::Line, Rotation::R270),
{
    proof {
        reveal(shape_model);
    }
    RotationMap { r0: grid_4x1(true, true, true, true), r90: grid_1x4(true, true, true, true), r180: grid_4x1(true, true, true, true), r270: grid_1x4(true, true, true, true) }
}

fn rotations_j() -> (m: RotationMap)
    ensures
        m.r0@ == shape_model(PieceSelector::J, Rotation::R0),
        m.r90@ == shape_model(PieceSelector::J, Rotation::R90),
        m.r180@ == shape_model(PieceSelector::J, Rotation::R180),
        m.r270@ == shape_model(PieceSelector::J, Rotation::R270),
{
    proof {
        reveal(shape_model);
    }
    RotationMap { r0: grid_4x2(true, false, false, false, true, true, true, true), r90: grid_2x4(true, true, true, false, true, false, true, false), r180: grid_4x2(true, true, true, true, false, false, false, true), r270: grid_2x4(true, false, true, false, true, false, true, true) }
}

fn rotations_l() -> (m: RotationMap)
    ensures
        m.r0@ == shape_model(PieceSelector::L, Rotation::R0),
        m.r90@ == shape_model(PieceSelector::L, Rotation::R90),
        m.r180@ == shape_model(PieceSelector::L, Rotation::R180),
        m.r270@ == shape_model(PieceSelector::L, Rotation::R270),
{
    proof {
        reveal(shape_model);
    }
    RotationMap { r0: grid_4x2(false, false, false, true, true, true, true, true), r90: grid_2x4(true, true, false, true, false, true, false, true), r180: grid_4x2(true, true, true, true, true, false, false, false), r270: grid_2x4(false, true, false, true, false, true, true, true) }
}

fn rotations_o() -> (m: RotationMap)
    ensures
        m.r0@ == shape_model(PieceSelector::O, Rotation::R0),
        m.r90@ == shape_model(PieceSelector::O, Rotation::R90),
        m.r180@ == shape_model(PieceSelector::O, Rotation::R180),
        m.r270@ == shape_model(PieceSelector::O, Rotation::R270),
{
    proof {
        reveal(shape_model);
    }
    RotationMap { r0: grid_2x2(true, true, true, true), r90: grid_2x2(true, true, true, true), r180: grid_2x2(true, true, true, true), r270: grid_2x2(true, true, true, true) }
}

fn rotations_s() -> (m: RotationMap)
    ensures
        m.r0@ == shape_model(PieceSelector::S, Rotation::R0),
        m.r90@ == shape_model(PieceSelector::S, Rotation::R90),
        m.r180@ == shape_model(PieceSelector::S, Rotation::R180),
        m.r270@ == shape_model(PieceSelector::S, Rotation::R270),
{
    proof {
        reveal(shape_model);
    }
    RotationMap { r0: grid_3x2(false, true, true, true, true, false), r90: grid_2x3(true, false, true, true, false, true), r180: grid_3x2(true, true, false, false, true, true), r270: grid_2x3(false, true, true, true, true, false) }
}

fn rotations_t() -> (m: RotationMap)
    ensures
        m.r0@ == shape_model(PieceSelector::T, Rotation::R0),
        m.r90@ == shape_model(PieceSelector::T, Rotation::R90),
        m.r180@ == shape_model(PieceSelector::T, Rotation::R180),
        m.r270@ == shape_model(PieceSelector::T, Rotation::R270),
{
    proof {
        reveal(shape_model);
    }
    RotationMap { r0: grid_3x2(false, true, false, true, true, true), r90: grid_2x3(true, false, true, true, true, false), r180: grid_3x2(true, true, true, false, true, false), r270: grid_2x3(false, true, true, true, false, true) }
}

fn rotations_z() -> (m: RotationMap)
    ensures
        m.r0@ == shape_model(PieceSelector::Z, Rotation::R0),
        m.r90@ == shape_model(PieceSelector::Z, Rotation::R90),
        m.r180@ == shape_model(PieceSelector::Z, Rotation::R180),
        m.r270@ == shape_model(PieceSelector::Z, Rotation::R270),
{
    proof {
        reveal(shape_model);
    }
    RotationMap { r0: grid_3x2(true, true, false, false, true, true), r90: grid_2x3(false, true, true, true, true, false), r180: grid_3x2(true, true, false, false, true, true), r270: grid_2x3(false, true, true, true, true, false) }
}

impl PieceSelector {
    /// Build the piece of this shape anchored at `offset`, with all four
    /// orientation grids pre-baked and the initial orientation active.
    pub fn to_piece(&self, offset: (usize, usize)) -> (p: Piece)
        ensures
            p@ == piece_model(*self, offset.0 as int, offset.1 as int),
    {
        let rotations = match self {
            PieceSelector::Line => rotations_line(),
            PieceSelector::J => rotations_j(),
            PieceSelector::L => rotations_l(),
            PieceSelector::O => rotations_o(),
            PieceSelector::S => rotations_s(),
            PieceSelector::T => rotations_t(),
            PieceSelector::Z => rotations_z(),
        };
        Piece { rotations, current_rotation: Rotation::R0, x: offset.0, y: offset.1 }
    }
}

impl Piece {
    /// Build a piece of a uniformly chosen shape anchored at `offset`, in
    /// the initial orientation.
    pub fn random_piece(offset: (usize, usize), rng: &mut rand::rngs::SmallRng) -> (p: Piece)
        ensures
            exists|sel: PieceSelector| p@ == piece_model(sel, offset.0 as int, offset.1 as int),
            p@.wf(),
            p@.rot == Rotation::R0,
            p@.x == offset.0,
            p@.y == offset.1,
    {
        let idx = draw_index(rng, 7);
        let sel = if idx == 0 {
            PieceSelector::Line
        } else if idx == 1 {
            PieceSelector::J
        } else if idx == 2 {
            PieceSelector::L
        } else if idx == 3 {
            PieceSelector::O
        } else if idx == 4 {
            PieceSelector::S
        } else if idx == 5 {
            PieceSelector::T
        } else {
            PieceSelector::Z
        };
        let p = sel.to_piece(offset);
        proof {
            lemma_piece_model_wf(sel, offset.0 as int, offset.1 as int);
        }
        p
    }

    /// Advance the active orientation one step in the rotation cycle; the
    /// grids and the position are untouched.
    pub fn next_rotation(&mut self)
        ensures
            final(self)@ == (PieceModel { rot: old(self)@.rot.spec_next(), ..old(self)@ }),
    {
        self.current_rotation = self.current_rotation.next();
    }

    /// The grid of the active orientation.
    pub fn current_rotation(&self) -> (g: &Grid)
        ensures
            g@ == self@.current(),
    {
        match self.current_rotation {
            Rotation::R0 => &self.rotations.r0,
            Rotation::R90 => &self.rotations.r90,
            Rotation::R180 => &self.rotations.r180,
            Rotation::R270 => &self.rotations.r270,
        }
    }

    /// The grid one rotation step ahead, without changing the piece: used to
    /// test a pending rotate input before committing it.
    pub fn peek_next_rotation(&self) -> (g: &Grid)
        ensures
            g@ == self@.next_grid(),
    {
        match self.current_rotation.next() {
            Rotation::R0 => &self.rotations.r0,
            Rotation::R90 => &self.rotations.r90,
            Rotation::R180 => &self.rotations.r180,
            Rotation::R270 => &self.rotations.r270,
        }
    }
}

/// Four rotation advances leave a piece's active grid structurally
/// identical to the grid it started with.
pub proof fn lemma_four_rotations_same_grid(p: PieceModel)
    ensures
        p.grid_at(p.rot.spec_next().spec_next().spec_next().spec_next()) == p.current(),
{
    lemma_rotation_cycle(p.rot);
}



} // verus!
