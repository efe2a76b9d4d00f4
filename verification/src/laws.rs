//! The library's general laws, proved over the same spec functions that the
//! public contracts of the parser and the layout engine use.

use crate::entity::{cv_box, cv_prims, Color, CubeViz, Face, FONT_SIZE, MARGIN, SIDE_SIZE};
use crate::entity::{face_box_prelabel, face_label_value};
use crate::parser::{cube_from_colors, cube_slot, face_from_colors, grid_slot_21, side_slot_21};
use crate::parser::{ParseError, SpecOut};
use vstd::prelude::*;

verus! {

/// For every valid 9-color stream the face model's grid is exactly the
/// row-major color stream, the side strips are absent, and the attributes
/// pass through unchanged.
pub proof fn lemma_face_nine_colors(attrs: Map<Seq<char>, Seq<char>>, colors: Seq<Color>)
    requires
        colors.len() == 9,
    ensures
        face_from_colors(attrs, colors) == (SpecOut::FaceOut {
            grid: colors,
            side: None::<Seq<Color>>,
            attrs,
        }),
{
}

/// Whether stream position `j` of a 21-color face stream is read by some
/// grid or strip slot.
pub open spec fn covered_21(j: int) -> bool {
    (exists|k: int| 0 <= k < 9 && grid_slot_21(k) == j) || (exists|k: int|
        0 <= k < 12 && side_slot_21(k) == j)
}

/// For a 21-color stream the grid and strip slots use every one of the 21
/// stream positions exactly once: all slots are in range, no position is
/// read twice, and no position is dropped.
pub proof fn lemma_slots_21_partition()
    ensures
        forall|k: int| 0 <= k < 9 ==> 0 <= #[trigger] grid_slot_21(k) < 21,
        forall|k: int| 0 <= k < 12 ==> 0 <= #[trigger] side_slot_21(k) < 21,
        forall|k1: int, k2: int|
            0 <= k1 < 9 && 0 <= k2 < 9 && k1 != k2 ==> grid_slot_21(k1) != grid_slot_21(k2),
        forall|k1: int, k2: int|
            0 <= k1 < 12 && 0 <= k2 < 12 && k1 != k2 ==> side_slot_21(k1) != side_slot_21(k2),
        forall|k1: int, k2: int|
            0 <= k1 < 9 && 0 <= k2 < 12 ==> grid_slot_21(k1) != side_slot_21(k2),
        forall|j: int| 0 <= j < 21 ==> #[trigger] covered_21(j),
{
    assert forall|j: int| 0 <= j < 21 implies #[trigger] covered_21(j) by {
        if j == 4 || j == 5 || j == 6 {
            assert(grid_slot_21(j - 4) == j);
        } else if j == 9 || j == 10 || j == 11 {
            assert(grid_slot_21(j - 6) == j);
        } else if j == 14 || j == 15 || j == 16 {
            assert(grid_slot_21(j - 8) == j);
        } else if j == 0 || j == 1 || j == 2 || j == 3 {
            assert(side_slot_21(j) == j);
        } else if j == 8 {
            assert(side_slot_21(4) == 8);
        } else if j == 13 {
            assert(side_slot_21(5) == 13);
        } else if j == 7 {
            assert(side_slot_21(6) == 7);
        } else if j == 12 {
            assert(side_slot_21(7) == 12);
        } else if j == 17 {
            assert(side_slot_21(8) == 17);
        } else {
            assert(side_slot_21(j - 9) == j);
        }
    }
}

/// A cube stream of any length other than 54 is an arity violation; at 54
/// exactly six faces of nine cells each are produced and the attributes
/// pass through unchanged.
pub proof fn lemma_cube_arity(attrs: Map<Seq<char>, Seq<char>>, colors: Seq<Color>)
    ensures
        colors.len() != 54 ==> cube_from_colors(attrs, colors) == SpecOut::Fail(
            ParseError::ArityViolation,
        ),
        colors.len() == 54 ==> (cube_from_colors(attrs, colors) matches SpecOut::CubeOut {
            faces,
            attrs: a,
        } && a == attrs && faces.len() == 6 && (forall|f: int|
            0 <= f < 6 ==> (#[trigger] faces[f]).len() == 9)),
{
}

/// Whether stream position `j` of a 54-color cube stream is read by some
/// face cell.
pub open spec fn covered_54(j: int) -> bool {
    exists|f: int, k: int| 0 <= f < 6 && 0 <= k < 9 && cube_slot(f, k) == j
}

/// The 54 cube face cells read mutually distinct stream positions and
/// jointly cover all 54: the concatenation of the six faces in
/// up/front/right/back/left/down order accounts for every input color with
/// no repeats and no omissions.
pub proof fn lemma_cube_slots_partition()
    ensures
        forall|f: int, k: int| 0 <= f < 6 && 0 <= k < 9 ==> 0 <= #[trigger] cube_slot(f, k) < 54,
        forall|f1: int, k1: int, f2: int, k2: int|
            0 <= f1 < 6 && 0 <= k1 < 9 && 0 <= f2 < 6 && 0 <= k2 < 9 && (f1 != f2 || k1 != k2)
                ==> cube_slot(f1, k1) != cube_slot(f2, k2),
        forall|j: int| 0 <= j < 54 ==> #[trigger] covered_54(j),
{
    assert forall|f: int, k: int| 0 <= f < 6 && 0 <= k < 9 implies 0 <= #[trigger] cube_slot(f, k)
        < 54 by {
        assert(k == 3 * (k / 3) + k % 3 && 0 <= k / 3 < 3 && 0 <= k % 3 < 3);
    }
    assert forall|f1: int, k1: int, f2: int, k2: int|
        0 <= f1 < 6 && 0 <= k1 < 9 && 0 <= f2 < 6 && 0 <= k2 < 9 && (f1 != f2 || k1 != k2)
        implies cube_slot(f1, k1) != cube_slot(f2, k2) by {
        assert(k1 == 3 * (k1 / 3) + k1 % 3 && 0 <= k1 / 3 < 3 && 0 <= k1 % 3 < 3);
        assert(k2 == 3 * (k2 / 3) + k2 % 3 && 0 <= k2 / 3 < 3 && 0 <= k2 % 3 < 3);
    }
    assert forall|j: int| 0 <= j < 54 implies #[trigger] covered_54(j) by {
        if j < 9 {
            assert(cube_slot(0, j) == j);
        } else if j < 45 {
            let d = j - 9;
            let q = d / 12;
            let rem = d % 12;
            let f = 1 + rem / 3;
            let k = 3 * q + rem % 3;
            assert(d == 12 * q + rem && 0 <= rem < 12 && 0 <= q < 3);
            assert(rem == 3 * (rem / 3) + rem % 3 && 0 <= rem / 3 < 4 && 0 <= rem % 3 < 3);
            assert(k / 3 == q && k % 3 == rem % 3);
            assert(cube_slot(f, k) == j);
        } else {
            assert(cube_slot(5, j - 45) == j);
        }
    }
}

/// Adding side strips to an otherwise identical face grows both viewbox
/// dimensions by exactly `2 * (MARGIN + SIDE_SIZE)`, so both strictly grow.
pub proof fn lemma_viewbox_strip_growth(f: Face, g: Face)
    requires
        f.side_strips() is None,
        g.side_strips() is Some,
        g.attrs() == f.attrs(),
    ensures
        cv_box(CubeViz::Face(g)).width == cv_box(CubeViz::Face(f)).width + 2 * (MARGIN
            + SIDE_SIZE),
        cv_box(CubeViz::Face(g)).height == cv_box(CubeViz::Face(f)).height + 2 * (MARGIN
            + SIDE_SIZE),
        cv_box(CubeViz::Face(g)).width > cv_box(CubeViz::Face(f)).width,
        cv_box(CubeViz::Face(g)).height > cv_box(CubeViz::Face(f)).height,
{
}

/// Adding a `label` attribute to an otherwise identical face grows the
/// viewbox height by exactly `MARGIN + FONT_SIZE` and never changes the
/// width.
pub proof fn lemma_viewbox_label_growth(f: Face, g: Face)
    requires
        face_label_value(f) is None,
        face_label_value(g) is Some,
        g.side_strips() == f.side_strips(),
    ensures
        cv_box(CubeViz::Face(g)).height == cv_box(CubeViz::Face(f)).height + (MARGIN + FONT_SIZE),
        cv_box(CubeViz::Face(g)).width == cv_box(CubeViz::Face(f)).width,
        cv_box(CubeViz::Face(g)).height > cv_box(CubeViz::Face(f)).height,
{
    assert(face_box_prelabel(g) == face_box_prelabel(f));
}

/// Layout is a pure function of the model: equal models yield equal
/// primitive lists and equal viewboxes. Together with the contracts of
/// `tosvg` this pins every rendering of one model to one output.
pub proof fn lemma_layout_deterministic(a: CubeViz, b: CubeViz)
    requires
        a == b,
    ensures
        cv_prims(a) == cv_prims(b),
        cv_box(a) == cv_box(b),
{
}

} // verus!
