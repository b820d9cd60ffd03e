use fluid_sim::boundary::{
    boundary_face, boundary_faces, face_rule, faces_of_cell, BoundaryFace, FaceOwner, FaceRule,
    NormalRule, TangentialRule,
};
use fluid_sim::cell::{Axis, BoundaryConditionCell, CellType, Side};
use fluid_sim::layout::CellLayout;

const F: CellType = CellType::FluidCell;
const V: CellType = CellType::VoidCell;
const W: CellType = CellType::BoundaryConditionCell(BoundaryConditionCell::NoSlipCell);
const S: CellType = CellType::BoundaryConditionCell(BoundaryConditionCell::FreeSlipCell);
const O: CellType = CellType::BoundaryConditionCell(BoundaryConditionCell::OutFlowCell);
const I: CellType = CellType::BoundaryConditionCell(BoundaryConditionCell::InflowCell);

const SIDES: [Side; 4] = [Side::Left, Side::Right, Side::Bottom, Side::Top];

#[test]
fn no_slip_reflects_and_closes_the_face() {
    for side in SIDES {
        let rule = face_rule(BoundaryConditionCell::NoSlipCell, side);
        assert_eq!(rule.normal, NormalRule::Zero);
        assert_eq!(rule.tangential, TangentialRule::Reflect);
    }
}

#[test]
fn free_slip_copies_and_closes_the_face() {
    for side in SIDES {
        let rule = face_rule(BoundaryConditionCell::FreeSlipCell, side);
        assert_eq!(rule.normal, NormalRule::Zero);
        assert_eq!(rule.tangential, TangentialRule::FromFluid);
    }
}

#[test]
fn outflow_copies_both_components() {
    for side in SIDES {
        let rule = face_rule(BoundaryConditionCell::OutFlowCell, side);
        assert_eq!(rule.normal, NormalRule::Inward);
        assert_eq!(rule.tangential, TangentialRule::FromFluid);
    }
}

#[test]
fn inflow_keeps_its_prescribed_values() {
    for side in SIDES {
        let rule = face_rule(BoundaryConditionCell::InflowCell, side);
        assert_eq!(rule.normal, NormalRule::Prescribed);
        assert_eq!(rule.tangential, TangentialRule::Keep);
    }
}

#[test]
fn the_lower_cell_of_a_pair_owns_the_face() {
    for kind in [
        BoundaryConditionCell::NoSlipCell,
        BoundaryConditionCell::FreeSlipCell,
        BoundaryConditionCell::OutFlowCell,
        BoundaryConditionCell::InflowCell,
    ] {
        assert_eq!(face_rule(kind, Side::Left).owner, FaceOwner::Fluid);
        assert_eq!(face_rule(kind, Side::Bottom).owner, FaceOwner::Fluid);
        assert_eq!(face_rule(kind, Side::Right).owner, FaceOwner::Boundary);
        assert_eq!(face_rule(kind, Side::Top).owner, FaceOwner::Boundary);
        assert_eq!(face_rule(kind, Side::Left).normal_axis, Axis::X);
        assert_eq!(face_rule(kind, Side::Right).normal_axis, Axis::X);
        assert_eq!(face_rule(kind, Side::Bottom).normal_axis, Axis::Y);
        assert_eq!(face_rule(kind, Side::Top).normal_axis, Axis::Y);
    }
}

#[test]
fn face_rule_exact_value() {
    assert_eq!(
        face_rule(BoundaryConditionCell::OutFlowCell, Side::Left),
        FaceRule {
            owner: FaceOwner::Fluid,
            normal_axis: Axis::X,
            normal: NormalRule::Inward,
            tangential: TangentialRule::FromFluid,
        }
    );
    assert_eq!(
        face_rule(BoundaryConditionCell::NoSlipCell, Side::Top),
        FaceRule {
            owner: FaceOwner::Boundary,
            normal_axis: Axis::Y,
            normal: NormalRule::Zero,
            tangential: TangentialRule::Reflect,
        }
    );
}

#[test]
fn boundary_face_needs_a_boundary_cell_and_a_fluid_neighbor() {
    let grid = CellLayout::new(vec![vec![W, F, V], vec![F, O, W], vec![V, F, I]]).unwrap();
    assert_eq!(boundary_face(&grid, 0, 1, Side::Right), None);
    assert_eq!(boundary_face(&grid, 0, 2, Side::Bottom), None);
    assert_eq!(boundary_face(&grid, 1, 2, Side::Bottom), None);
    assert_eq!(boundary_face(&grid, 0, 0, Side::Left), None);
    assert_eq!(boundary_face(&grid, 3, 3, Side::Left), None);
    assert_eq!(
        boundary_face(&grid, 0, 0, Side::Right),
        Some(BoundaryFace {
            x: 0,
            y: 0,
            side: Side::Right,
            kind: BoundaryConditionCell::NoSlipCell,
            rule: face_rule(BoundaryConditionCell::NoSlipCell, Side::Right),
        })
    );
    assert_eq!(
        boundary_face(&grid, 2, 2, Side::Bottom),
        Some(BoundaryFace {
            x: 2,
            y: 2,
            side: Side::Bottom,
            kind: BoundaryConditionCell::InflowCell,
            rule: face_rule(BoundaryConditionCell::InflowCell, Side::Bottom),
        })
    );
}

#[test]
fn faces_of_a_cell_come_left_right_bottom_top() {
    let grid = CellLayout::new(vec![vec![V, F, V], vec![F, O, F], vec![V, F, V]]).unwrap();
    let faces = faces_of_cell(&grid, 1, 1);
    let sides: Vec<Side> = faces.iter().map(|face| face.side).collect();
    assert_eq!(sides, vec![Side::Left, Side::Right, Side::Bottom, Side::Top]);
    for face in faces {
        assert_eq!((face.x, face.y), (1, 1));
        assert_eq!(face.kind, BoundaryConditionCell::OutFlowCell);
        assert_eq!(face.rule, face_rule(BoundaryConditionCell::OutFlowCell, face.side));
    }
    assert!(faces_of_cell(&grid, 0, 1).is_empty());
    assert!(faces_of_cell(&grid, 0, 0).is_empty());
    assert!(faces_of_cell(&grid, 5, 5).is_empty());
}

#[test]
fn boundary_faces_of_a_small_channel() {
    // Column 0 is an inflow, column 3 an outflow; free-slip below, no-slip above.
    let grid = CellLayout::new(vec![
        vec![S, I, W],
        vec![S, F, W],
        vec![S, F, W],
        vec![S, O, W],
    ])
    .unwrap();
    let faces = boundary_faces(&grid);
    let places: Vec<(usize, usize, Side)> =
        faces.iter().map(|face| (face.x, face.y, face.side)).collect();
    assert_eq!(
        places,
        vec![
            (0, 1, Side::Right),
            (1, 0, Side::Top),
            (1, 2, Side::Bottom),
            (2, 0, Side::Top),
            (2, 2, Side::Bottom),
            (3, 1, Side::Left),
        ]
    );
    let kinds: Vec<BoundaryConditionCell> = faces.iter().map(|face| face.kind).collect();
    assert_eq!(
        kinds,
        vec![
            BoundaryConditionCell::InflowCell,
            BoundaryConditionCell::FreeSlipCell,
            BoundaryConditionCell::NoSlipCell,
            BoundaryConditionCell::FreeSlipCell,
            BoundaryConditionCell::NoSlipCell,
            BoundaryConditionCell::OutFlowCell,
        ]
    );
    for face in faces {
        assert_eq!(face.rule, face_rule(face.kind, face.side));
    }
}

#[test]
fn cavity_of_ten_has_thirty_two_faces() {
    let mut cells = Vec::new();
    for x in 0..10 {
        let mut column = Vec::new();
        for y in 0..10 {
            if x == 0 || y == 0 || x == 9 || y == 9 {
                column.push(W);
            } else {
                column.push(F);
            }
        }
        cells.push(column);
    }
    let grid = CellLayout::new(cells).unwrap();
    let faces = boundary_faces(&grid);
    assert_eq!(faces.len(), 32);
    assert_eq!((faces[0].x, faces[0].y, faces[0].side), (0, 1, Side::Right));
    assert_eq!((faces[31].x, faces[31].y, faces[31].side), (9, 8, Side::Left));
    for face in faces {
        assert_eq!(face.rule.normal, NormalRule::Zero);
        assert_eq!(face.rule.tangential, TangentialRule::Reflect);
    }
}
