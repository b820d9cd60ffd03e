use fluid_sim::cell::{Axis, BoundaryConditionCell, CellClass, CellType, Side};
use fluid_sim::layout::CellLayout;

const F: CellType = CellType::FluidCell;
const V: CellType = CellType::VoidCell;
const W: CellType = CellType::BoundaryConditionCell(BoundaryConditionCell::NoSlipCell);

/// A square cavity: fluid enclosed by one ring of no-slip cells.
fn cavity(n: usize) -> CellLayout {
    let mut cells = Vec::new();
    for x in 0..n {
        let mut column = Vec::new();
        for y in 0..n {
            if x == 0 || y == 0 || x + 1 == n || y + 1 == n {
                column.push(W);
            } else {
                column.push(F);
            }
        }
        cells.push(column);
    }
    CellLayout::new(cells).unwrap()
}

#[test]
fn new_rejects_columns_of_unequal_length() {
    assert!(CellLayout::new(vec![vec![F, F], vec![F]]).is_none());
    assert!(CellLayout::new(vec![vec![], vec![F]]).is_none());
}

#[test]
fn new_accepts_empty_and_rectangular_grids() {
    let empty = CellLayout::new(Vec::new()).unwrap();
    assert_eq!(empty.space_size(), [0, 0]);
    assert_eq!(empty.fluid_cell_count(), 0);
    let narrow = CellLayout::new(vec![vec![], vec![], vec![]]).unwrap();
    assert_eq!(narrow.space_size(), [3, 0]);
    let grid = CellLayout::new(vec![vec![F, V, W], vec![W, F, F]]).unwrap();
    assert_eq!(grid.space_size(), [2, 3]);
}

#[test]
fn cells_are_indexed_by_x_then_y() {
    let grid = CellLayout::new(vec![vec![F, V, W], vec![W, F, F]]).unwrap();
    assert_eq!(grid.try_get_cell_type(0, 1), Some(V));
    assert_eq!(grid.try_get_cell_type(1, 0), Some(W));
    assert_eq!(grid.get_cell_type(0, 2), W);
    assert_eq!(grid.get_cell_type(1, 2), F);
}

#[test]
fn try_get_cell_type_outside_is_none() {
    let grid = cavity(4);
    assert_eq!(grid.try_get_cell_type(4, 0), None);
    assert_eq!(grid.try_get_cell_type(0, 4), None);
    assert_eq!(grid.try_get_cell_type(usize::MAX, 0), None);
    assert_eq!(grid.try_get_cell_type(0, usize::MAX), None);
    assert_eq!(grid.try_get_cell_type(3, 3), Some(W));
}

#[test]
fn neighbor_does_not_wrap_at_zero() {
    let grid = cavity(4);
    assert_eq!(grid.neighbor(0, 2, Side::Left), None);
    assert_eq!(grid.neighbor(2, 0, Side::Bottom), None);
    assert_eq!(grid.neighbor_type(0, 2, Side::Left), None);
    assert_eq!(grid.neighbor_type(2, 0, Side::Bottom), None);
    assert!(!grid.has_fluid_on(0, 0, Side::Left));
}

#[test]
fn neighbor_stops_at_the_high_edge() {
    let grid = cavity(4);
    assert_eq!(grid.neighbor(3, 2, Side::Right), None);
    assert_eq!(grid.neighbor(2, 3, Side::Top), None);
    assert_eq!(grid.neighbor(usize::MAX, 2, Side::Right), None);
    assert_eq!(grid.neighbor(2, usize::MAX, Side::Top), None);
    assert_eq!(grid.neighbor(4, 2, Side::Left), Some((3, 2)));
    assert_eq!(grid.neighbor(2, 4, Side::Bottom), Some((2, 3)));
}

#[test]
fn neighbor_steps_one_cell() {
    let grid = cavity(4);
    assert_eq!(grid.neighbor(1, 2, Side::Left), Some((0, 2)));
    assert_eq!(grid.neighbor(1, 2, Side::Right), Some((2, 2)));
    assert_eq!(grid.neighbor(1, 2, Side::Bottom), Some((1, 1)));
    assert_eq!(grid.neighbor(1, 2, Side::Top), Some((1, 3)));
    assert_eq!(grid.neighbor_type(1, 2, Side::Left), Some(W));
    assert_eq!(grid.neighbor_type(1, 2, Side::Right), Some(F));
    assert!(grid.has_fluid_on(1, 2, Side::Bottom));
    assert!(!grid.has_fluid_on(1, 2, Side::Top));
}

#[test]
fn cavity_of_ten_has_sixty_four_fluid_cells() {
    let grid = cavity(10);
    assert_eq!(grid.space_size(), [10, 10]);
    assert_eq!(grid.fluid_cell_count(), 64);
    assert!(grid.is_fluid_enclosed());
    let fluid = grid.cells_of_class(CellClass::Fluid);
    assert_eq!(fluid.len(), 64);
    assert_eq!(fluid[0], (1, 1));
    assert_eq!(fluid[1], (1, 2));
    assert_eq!(fluid[8], (2, 1));
    assert_eq!(fluid[63], (8, 8));
    assert_eq!(grid.cells_of_class(CellClass::Boundary).len(), 36);
    assert!(grid.cells_of_class(CellClass::Void).is_empty());
}

#[test]
fn cells_of_class_lists_in_raster_order() {
    let grid = CellLayout::new(vec![vec![F, V, W], vec![W, F, F], vec![V, V, F]]).unwrap();
    assert_eq!(grid.cells_of_class(CellClass::Fluid), vec![(0, 0), (1, 1), (1, 2), (2, 2)]);
    assert_eq!(grid.cells_of_class(CellClass::Boundary), vec![(0, 2), (1, 0)]);
    assert_eq!(grid.cells_of_class(CellClass::Void), vec![(0, 1), (2, 0), (2, 1)]);
    assert_eq!(grid.fluid_cell_count(), 4);
}

#[test]
fn fluid_on_the_edge_is_not_enclosed() {
    let grid = CellLayout::new(vec![vec![W, W, W], vec![W, F, W], vec![W, F, W]]).unwrap();
    assert!(!grid.is_fluid_enclosed());
    let low = CellLayout::new(vec![vec![W, W, W], vec![F, F, W], vec![W, W, W]]).unwrap();
    assert!(!low.is_fluid_enclosed());
    let closed = CellLayout::new(vec![vec![W, W, W], vec![W, F, W], vec![W, W, W]]).unwrap();
    assert!(closed.is_fluid_enclosed());
    let dry = CellLayout::new(vec![vec![W, V], vec![V, W]]).unwrap();
    assert!(dry.is_fluid_enclosed());
}

#[test]
fn fluid_neighbors_come_left_right_bottom_top() {
    let grid = CellLayout::new(vec![vec![V, F, V], vec![F, W, F], vec![V, F, V]]).unwrap();
    assert_eq!(grid.fluid_neighbors(1, 1), vec![(0, 1), (2, 1), (1, 0), (1, 2)]);
    assert_eq!(grid.neighboring_fluid_count(1, 1), 4);
    assert_eq!(grid.mean_divisor(1, 1), Some(4));
    assert_eq!(grid.fluid_neighbors(0, 0), vec![(1, 0), (0, 1)]);
    assert_eq!(grid.neighboring_fluid_count(0, 0), 2);
    assert_eq!(grid.mean_divisor(0, 0), Some(2));
}

#[test]
fn boundary_cell_without_fluid_neighbors_has_no_divisor() {
    let grid = cavity(10);
    assert_eq!(grid.mean_divisor(0, 0), None);
    assert_eq!(grid.mean_divisor(9, 9), None);
    assert_eq!(grid.neighboring_fluid_count(0, 0), 0);
    assert!(grid.fluid_neighbors(0, 0).is_empty());
    assert_eq!(grid.mean_divisor(0, 3), Some(1));
    assert_eq!(grid.fluid_neighbors(0, 3), vec![(1, 3)]);
    assert_eq!(grid.fluid_neighbors(4, 9), vec![(4, 8)]);
}

#[test]
fn predictor_needs_a_fluid_forward_neighbor() {
    let grid = CellLayout::new(vec![vec![F, F, W], vec![F, V, V], vec![W, F, F]]).unwrap();
    assert!(grid.predicts(0, 0, Axis::X));
    assert!(grid.predicts(0, 0, Axis::Y));
    assert!(!grid.predicts(0, 1, Axis::X));
    assert!(!grid.predicts(0, 1, Axis::Y));
    assert!(!grid.predicts(1, 0, Axis::X));
    assert!(!grid.predicts(0, 2, Axis::X));
    assert!(!grid.predicts(2, 2, Axis::X));
    assert!(!grid.predicts(2, 2, Axis::Y));
    assert!(grid.predicts(2, 1, Axis::Y));
}

#[test]
fn corrector_needs_a_forward_neighbor_that_is_no_boundary() {
    let grid = CellLayout::new(vec![vec![F, F, W], vec![F, V, V], vec![W, F, F]]).unwrap();
    assert!(grid.corrects(0, 0, Axis::X));
    assert!(grid.corrects(0, 0, Axis::Y));
    assert!(grid.corrects(0, 1, Axis::X));
    assert!(!grid.corrects(0, 1, Axis::Y));
    assert!(!grid.corrects(1, 0, Axis::X));
    assert!(grid.corrects(1, 0, Axis::Y));
    assert!(!grid.corrects(1, 1, Axis::X));
    assert!(!grid.corrects(2, 2, Axis::X));
    assert!(!grid.corrects(2, 2, Axis::Y));
    assert!(!grid.corrects(3, 0, Axis::X));
}

#[test]
fn cell_type_queries() {
    assert!(F.is_fluid());
    assert!(!W.is_fluid());
    assert!(!V.is_fluid());
    assert_eq!(F.class(), CellClass::Fluid);
    assert_eq!(W.class(), CellClass::Boundary);
    assert_eq!(V.class(), CellClass::Void);
    assert_eq!(F.boundary_kind(), None);
    assert_eq!(V.boundary_kind(), None);
    assert_eq!(W.boundary_kind(), Some(BoundaryConditionCell::NoSlipCell));
    assert_eq!(
        CellType::BoundaryConditionCell(BoundaryConditionCell::OutFlowCell).boundary_kind(),
        Some(BoundaryConditionCell::OutFlowCell)
    );
}

#[test]
fn axes_and_sides() {
    assert_eq!(Axis::X.index(), 0);
    assert_eq!(Axis::Y.index(), 1);
    assert_eq!(Axis::X.other(), Axis::Y);
    assert_eq!(Axis::Y.other(), Axis::X);
    assert_eq!(Axis::X.forward(), Side::Right);
    assert_eq!(Axis::Y.forward(), Side::Top);
    assert_eq!(Side::Left.axis(), Axis::X);
    assert_eq!(Side::Right.axis(), Axis::X);
    assert_eq!(Side::Bottom.axis(), Axis::Y);
    assert_eq!(Side::Top.axis(), Axis::Y);
    assert_eq!(Side::Left.opposite(), Side::Right);
    assert_eq!(Side::Right.opposite(), Side::Left);
    assert_eq!(Side::Bottom.opposite(), Side::Top);
    assert_eq!(Side::Top.opposite(), Side::Bottom);
}
