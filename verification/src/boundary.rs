//! The rules by which a boundary-condition cell is resolved against an
//! adjacent fluid cell.
//!
//! On the staggered grid a cell stores `u` on its right face and `v` on its
//! top face. The face that a boundary cell shares with a fluid neighbour is
//! therefore stored in the fluid cell when the neighbour lies to the left or
//! below, and in the boundary cell itself when it lies to the right or above.
//! A rule says, for one such face, what the velocity component normal to the
//! face becomes, and what the boundary cell's tangential component becomes.

use vstd::prelude::*;
use crate::cell::{Axis, BoundaryConditionCell, CellType, Side};
use crate::layout::{cell_at, fluid_at, in_grid, CellLayout, Columns};

verus! {

/// The cell of a boundary/fluid pair that stores the velocity component
/// normal to their shared face.
#[derive(Clone, Copy, Debug, PartialEq, Eq, Structural)]
pub enum FaceOwner {
    /// The adjacent fluid cell.
    Fluid,
    /// The boundary cell itself.
    Boundary,
}

/// What the velocity component normal to the shared face becomes.
#[derive(Clone, Copy, Debug, PartialEq, Eq, Structural)]
pub enum NormalRule {
    /// Zero: nothing flows through the face.
    Zero,
    /// The same component of the next cell from the owner towards the fluid.
    Inward,
    /// The boundary cell's own component. Where the boundary cell owns the
    /// face, this leaves the component as it is.
    Prescribed,
}

/// What the boundary cell's component tangential to the shared face becomes.
#[derive(Clone, Copy, Debug, PartialEq, Eq, Structural)]
pub enum TangentialRule {
    /// Twice the boundary cell's prescribed component minus the fluid cell's
    /// component, so that the mean over the face is the prescribed value.
    Reflect,
    /// The fluid cell's component.
    FromFluid,
    /// The component stays as it is.
    Keep,
}

/// The rule for one face between a boundary cell and a fluid neighbour.
///
/// After the velocities are set, the predictor value of the owner along
/// `normal_axis` (`f` for `X`, `g` for `Y`) is set to the owner's velocity
/// component along that axis.
#[derive(Clone, Copy, Debug, PartialEq, Eq, Structural)]
pub struct FaceRule {
    pub owner: FaceOwner,
    pub normal_axis: Axis,
    pub normal: NormalRule,
    pub tangential: TangentialRule,
}

/// One face to resolve: a boundary cell, the side on which a fluid cell
/// adjoins it, and the rule that applies.
#[derive(Clone, Copy, Debug, PartialEq, Eq, Structural)]
pub struct BoundaryFace {
    pub x: usize,
    pub y: usize,
    pub side: Side,
    pub kind: BoundaryConditionCell,
    pub rule: FaceRule,
}

/// The owner of the face shared with the neighbour on a side.
pub open spec fn face_owner_spec(side: Side) -> FaceOwner {
    match side {
        Side::Left | Side::Bottom => FaceOwner::Fluid,
        Side::Right | Side::Top => FaceOwner::Boundary,
    }
}

/// The rule for the normal component under a boundary kind.
pub open spec fn normal_rule_spec(kind: BoundaryConditionCell) -> NormalRule {
    match kind {
        BoundaryConditionCell::NoSlipCell | BoundaryConditionCell::FreeSlipCell => NormalRule::Zero,
        BoundaryConditionCell::OutFlowCell => NormalRule::Inward,
        BoundaryConditionCell::InflowCell => NormalRule::Prescribed,
    }
}

/// The rule for the tangential component under a boundary kind.
pub open spec fn tangential_rule_spec(kind: BoundaryConditionCell) -> TangentialRule {
    match kind {
        BoundaryConditionCell::NoSlipCell => TangentialRule::Reflect,
        BoundaryConditionCell::FreeSlipCell
        | BoundaryConditionCell::OutFlowCell => TangentialRule::FromFluid,
        BoundaryConditionCell::InflowCell => TangentialRule::Keep,
    }
}

/// The rule for the face between a boundary cell of a kind and the fluid
/// neighbour on a side.
pub open spec fn face_rule_spec(kind: BoundaryConditionCell, side: Side) -> FaceRule {
    FaceRule {
        owner: face_owner_spec(side),
        normal_axis: side.axis_spec(),
        normal: normal_rule_spec(kind),
        tangential: tangential_rule_spec(kind),
    }
}

/// The rule for the face between a boundary cell of a kind and the fluid
/// neighbour on a side.
pub fn face_rule(kind: BoundaryConditionCell, side: Side) -> (r: FaceRule)
    ensures
        r == face_rule_spec(kind, side),
{
    let owner = match side {
        Side::Left | Side::Bottom => FaceOwner::Fluid,
        Side::Right | Side::Top => FaceOwner::Boundary,
    };
    let (normal, tangential) = match kind {
        BoundaryConditionCell::NoSlipCell => (NormalRule::Zero, TangentialRule::Reflect),
        BoundaryConditionCell::FreeSlipCell => (NormalRule::Zero, TangentialRule::FromFluid),
        BoundaryConditionCell::OutFlowCell => (NormalRule::Inward, TangentialRule::FromFluid),
        BoundaryConditionCell::InflowCell => (NormalRule::Prescribed, TangentialRule::Keep),
    };
    FaceRule { owner, normal_axis: side.axis(), normal, tangential }
}

/// The face of the boundary cell at `(x, y)` on a side, where that cell is a
/// boundary-condition cell and the neighbour on the side carries fluid.
pub open spec fn boundary_face_at(g: Columns, x: int, y: int, side: Side) -> Option<BoundaryFace> {
    match cell_at(g, x, y) {
        Some(CellType::BoundaryConditionCell(kind)) => if fluid_at(
            g,
            x + side.dx(),
            y + side.dy(),
        ) {
            Some(
                BoundaryFace {
                    x: x as usize,
                    y: y as usize,
                    side,
                    kind,
                    rule: face_rule_spec(kind, side),
                },
            )
        } else {
            None
        },
        _ => None,
    }
}

/// The faces of one cell as a sequence: the face on the side if there is
/// one, and the empty sequence otherwise.
pub open spec fn face_on_side(g: Columns, x: int, y: int, side: Side) -> Seq<BoundaryFace> {
    match boundary_face_at(g, x, y, side) {
        Some(face) => seq![face],
        None => Seq::empty(),
    }
}

/// The faces of the cell at `(x, y)`, in the order left, right, bottom, top.
/// The sequence is empty unless the cell is a boundary-condition cell with a
/// fluid neighbour.
pub open spec fn faces_at(g: Columns, x: int, y: int) -> Seq<BoundaryFace> {
    face_on_side(g, x, y, Side::Left) + face_on_side(g, x, y, Side::Right) + face_on_side(
        g,
        x,
        y,
        Side::Bottom,
    ) + face_on_side(g, x, y, Side::Top)
}

/// The face of a cell on one side, if it has one there.
pub fn boundary_face(layout: &CellLayout, x: usize, y: usize, side: Side) -> (r: Option<
    BoundaryFace,
>)
    ensures
        r == boundary_face_at(layout@, x as int, y as int, side),
{
    match layout.try_get_cell_type(x, y) {
        Some(CellType::BoundaryConditionCell(kind)) => {
            if layout.has_fluid_on(x, y, side) {
                Some(BoundaryFace { x, y, side, kind, rule: face_rule(kind, side) })
            } else {
                None
            }
        },
        _ => None,
    }
}

/// The faces of a cell, in the order in which they are resolved: left,
/// right, bottom, top.
pub fn faces_of_cell(layout: &CellLayout, x: usize, y: usize) -> (r: Vec<BoundaryFace>)
    ensures
        r@ == faces_at(layout@, x as int, y as int),
{
    let ghost g = layout@;
    let mut faces: Vec<BoundaryFace> = Vec::new();
    if let Some(face) = boundary_face(layout, x, y, Side::Left) {
        faces.push(face);
    }
    assert(faces@ =~= face_on_side(g, x as int, y as int, Side::Left));
    if let Some(face) = boundary_face(layout, x, y, Side::Right) {
        faces.push(face);
    }
    assert(faces@ =~= face_on_side(g, x as int, y as int, Side::Left) + face_on_side(
        g,
        x as int,
        y as int,
        Side::Right,
    ));
    if let Some(face) = boundary_face(layout, x, y, Side::Bottom) {
        faces.push(face);
    }
    assert(faces@ =~= face_on_side(g, x as int, y as int, Side::Left) + face_on_side(
        g,
        x as int,
        y as int,
        Side::Right,
    ) + face_on_side(g, x as int, y as int, Side::Bottom));
    if let Some(face) = boundary_face(layout, x, y, Side::Top) {
        faces.push(face);
    }
    assert(faces@ =~= faces_at(g, x as int, y as int));
    faces
}

/// The faces of the first `upto` cells of column `x`, cell by cell.
pub open spec fn faces_in_column(g: Columns, x: int, upto: int) -> Seq<BoundaryFace>
    decreases upto,
{
    if upto <= 0 {
        Seq::empty()
    } else {
        faces_in_column(g, x, upto - 1) + faces_at(g, x, upto - 1)
    }
}

/// The faces of the first `upto` columns, column by column.
pub open spec fn faces_in_columns(g: Columns, upto: int) -> Seq<BoundaryFace>
    decreases upto,
{
    if upto <= 0 {
        Seq::empty()
    } else {
        faces_in_columns(g, upto - 1) + faces_in_column(g, upto - 1, g[upto - 1].len() as int)
    }
}

/// All faces of the grid in the order in which they are resolved: the cells
/// by `x`, within one column by `y`, and the sides of one cell in the order
/// left, right, bottom, top.
pub open spec fn all_faces(g: Columns) -> Seq<BoundaryFace> {
    faces_in_columns(g, g.len() as int)
}

/// All faces between a boundary-condition cell and an adjacent fluid cell,
/// each with its rule, in the order in which they are resolved.
pub fn boundary_faces(layout: &CellLayout) -> (r: Vec<BoundaryFace>)
    ensures
        r@ == all_faces(layout@),
{
    let ghost g = layout@;
    let size = layout.space_size();
    let nx: usize = size[0];
    let ny: usize = size[1];
    let mut faces: Vec<BoundaryFace> = Vec::new();
    let mut x: usize = 0;
    while x < nx
        invariant
            g == layout@,
            crate::layout::rectangular(g),
            nx == g.len(),
            ny == crate::layout::height(g),
            x <= nx,
            faces@ == faces_in_columns(g, x as int),
        decreases nx - x,
    {
        let ghost before = faces@;
        let mut y: usize = 0;
        while y < ny
            invariant
                g == layout@,
                y <= ny,
                faces@ == before + faces_in_column(g, x as int, y as int),
            decreases ny - y,
        {
            let ghost prior = faces@;
            let mut cell_faces = faces_of_cell(layout, x, y);
            faces.append(&mut cell_faces);
            assert(faces@ =~= before + faces_in_column(g, x as int, y + 1)) by {
                assert(faces@ == prior + faces_at(g, x as int, y as int));
            }
            y = y + 1;
        }
        assert(g[x as int].len() == ny);
        x = x + 1;
    }
    faces
}

/// Every face that is listed joins a boundary-condition cell to a fluid
/// neighbour and carries the rule of the cell's kind.
pub proof fn lemma_all_faces_are_faces(g: Columns, k: int)
    requires
        crate::layout::rectangular(g),
        crate::layout::width(g) <= usize::MAX,
        crate::layout::height(g) <= usize::MAX,
        0 <= k < all_faces(g).len(),
    ensures
        ({
            let face = all_faces(g)[k];
            boundary_face_at(g, face.x as int, face.y as int, face.side) == Some(face)
        }),
{
    lemma_faces_in_columns_are_faces(g, g.len() as int, k);
}

proof fn lemma_faces_at_are_faces(g: Columns, x: int, y: int, k: int)
    requires
        0 <= k < faces_at(g, x, y).len(),
        0 <= x <= usize::MAX,
        0 <= y <= usize::MAX,
    ensures
        ({
            let face = faces_at(g, x, y)[k];
            boundary_face_at(g, face.x as int, face.y as int, face.side) == Some(face)
        }),
{
}

proof fn lemma_faces_in_column_are_faces(g: Columns, x: int, upto: int, k: int)
    requires
        0 <= k < faces_in_column(g, x, upto).len(),
        0 <= x <= usize::MAX,
        upto <= usize::MAX,
    ensures
        ({
            let face = faces_in_column(g, x, upto)[k];
            boundary_face_at(g, face.x as int, face.y as int, face.side) == Some(face)
        }),
    decreases upto,
{
    if upto > 0 {
        let head = faces_in_column(g, x, upto - 1);
        if k < head.len() {
            lemma_faces_in_column_are_faces(g, x, upto - 1, k);
        } else {
            lemma_faces_at_are_faces(g, x, upto - 1, k - head.len());
        }
    }
}

proof fn lemma_faces_in_columns_are_faces(g: Columns, upto: int, k: int)
    requires
        crate::layout::rectangular(g),
        crate::layout::width(g) <= usize::MAX,
        crate::layout::height(g) <= usize::MAX,
        0 <= k < faces_in_columns(g, upto).len(),
        upto <= g.len(),
    ensures
        ({
            let face = faces_in_columns(g, upto)[k];
            boundary_face_at(g, face.x as int, face.y as int, face.side) == Some(face)
        }),
    decreases upto,
{
    if upto > 0 {
        let head = faces_in_columns(g, upto - 1);
        if k < head.len() {
            lemma_faces_in_columns_are_faces(g, upto - 1, k);
        } else {
            lemma_faces_in_column_are_faces(
                g,
                upto - 1,
                g[upto - 1].len() as int,
                k - head.len(),
            );
        }
    }
}

/// Every face between a boundary-condition cell and a fluid neighbour is
/// listed.
pub proof fn lemma_every_face_is_listed(g: Columns, x: int, y: int, side: Side)
    requires
        boundary_face_at(g, x, y, side) is Some,
    ensures
        all_faces(g).contains(boundary_face_at(g, x, y, side).unwrap()),
{
    let face = boundary_face_at(g, x, y, side).unwrap();
    let left = face_on_side(g, x, y, Side::Left);
    let right = face_on_side(g, x, y, Side::Right);
    let bottom = face_on_side(g, x, y, Side::Bottom);
    let at: int = match side {
        Side::Left => 0int,
        Side::Right => left.len() as int,
        Side::Bottom => (left.len() + right.len()) as int,
        Side::Top => (left.len() + right.len() + bottom.len()) as int,
    };
    assert(faces_at(g, x, y)[at] == face);
    lemma_column_lists_cell(g, x, g[x].len() as int, y, face);
    lemma_columns_list_column(g, g.len() as int, x, face);
}

proof fn lemma_concat_contains(head: Seq<BoundaryFace>, tail: Seq<BoundaryFace>, face: BoundaryFace)
    requires
        head.contains(face) || tail.contains(face),
    ensures
        (head + tail).contains(face),
{
    if head.contains(face) {
        let k = choose|k: int| 0 <= k < head.len() && head[k] == face;
        assert((head + tail)[k] == face);
    } else {
        let k = choose|k: int| 0 <= k < tail.len() && tail[k] == face;
        assert((head + tail)[head.len() + k] == face);
    }
}

proof fn lemma_column_lists_cell(g: Columns, x: int, upto: int, y: int, face: BoundaryFace)
    requires
        0 <= y < upto,
        faces_at(g, x, y).contains(face),
    ensures
        faces_in_column(g, x, upto).contains(face),
    decreases upto,
{
    if y < upto - 1 {
        lemma_column_lists_cell(g, x, upto - 1, y, face);
    }
    lemma_concat_contains(faces_in_column(g, x, upto - 1), faces_at(g, x, upto - 1), face);
}

proof fn lemma_columns_list_column(g: Columns, upto: int, x: int, face: BoundaryFace)
    requires
        0 <= x < upto,
        faces_in_column(g, x, g[x].len() as int).contains(face),
    ensures
        faces_in_columns(g, upto).contains(face),
    decreases upto,
{
    if x < upto - 1 {
        lemma_columns_list_column(g, upto - 1, x, face);
    }
    lemma_concat_contains(
        faces_in_columns(g, upto - 1),
        faces_in_column(g, upto - 1, g[upto - 1].len() as int),
        face,
    );
}

/// A wall lets nothing through: under a no-slip or a free-slip boundary the
/// velocity component normal to the shared face is zero, on every side.
pub proof fn lemma_wall_is_impermeable(kind: BoundaryConditionCell, side: Side)
    requires
        kind is NoSlipCell || kind is FreeSlipCell,
    ensures
        face_rule_spec(kind, side).normal == NormalRule::Zero,
{
}

/// A no-slip wall reflects: on every side the tangential component is set by
/// reflection about the prescribed value, and the normal component is zero.
pub proof fn lemma_no_slip_reflects(side: Side)
    ensures
        face_rule_spec(BoundaryConditionCell::NoSlipCell, side).tangential
            == TangentialRule::Reflect,
        face_rule_spec(BoundaryConditionCell::NoSlipCell, side).normal == NormalRule::Zero,
{
}

/// The cell that owns a face, for a boundary cell at `(x, y)`.
pub open spec fn owner_cell(x: int, y: int, side: Side) -> (int, int) {
    match face_owner_spec(side) {
        FaceOwner::Fluid => (x + side.dx(), y + side.dy()),
        FaceOwner::Boundary => (x, y),
    }
}

/// The owner's component normal to the face is the one stored on the shared
/// face: the owner's forward neighbour along the normal axis is the other
/// cell of the pair.
pub proof fn lemma_owner_stores_shared_face(x: int, y: int, side: Side)
    ensures
        ({
            let (ox, oy) = owner_cell(x, y, side);
            let forward = side.axis_spec().forward_spec();
            let other = match face_owner_spec(side) {
                FaceOwner::Fluid => (x, y),
                FaceOwner::Boundary => (x + side.dx(), y + side.dy()),
            };
            (ox + forward.dx(), oy + forward.dy()) == other
        }),
{
}

/// The component that a rule sets on the owner of a face is left to the
/// rule: neither the predictor nor the corrector writes the owner's
/// component along the normal axis.
pub proof fn lemma_resolved_component_is_left_alone(g: Columns, x: int, y: int, side: Side)
    requires
        boundary_face_at(g, x, y, side) is Some,
    ensures
        ({
            let (ox, oy) = owner_cell(x, y, side);
            !crate::layout::predicts_at(g, ox, oy, side.axis_spec())
                && !crate::layout::corrects_at(g, ox, oy, side.axis_spec())
        }),
{
}

/// In a grid whose fluid is enclosed, every cell that a rule reads or writes
/// lies inside the grid: the owner of the face, and the next cell from the
/// owner towards the fluid, from which an outflow boundary copies.
pub proof fn lemma_rule_cells_in_grid(g: Columns, x: int, y: int, side: Side)
    requires
        crate::layout::rectangular(g),
        crate::layout::fluid_enclosed(g),
        boundary_face_at(g, x, y, side) is Some,
    ensures
        ({
            let (ox, oy) = owner_cell(x, y, side);
            in_grid(g, ox, oy) && in_grid(g, ox + side.dx(), oy + side.dy())
        }),
{
    crate::layout::lemma_enclosed_second_step_in_grid(g, x, y, side);
    crate::layout::lemma_enclosed_block_in_grid(g, x + side.dx(), y + side.dy(), 0, 0);
}

} // verus!
