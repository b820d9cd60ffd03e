//! Cell taxonomy, grid sides and velocity axes.

use vstd::prelude::*;

verus! {

/// The kind of a boundary-condition cell.
#[derive(Clone, Copy, Debug, PartialEq, Eq, Structural)]
pub enum BoundaryConditionCell {
    NoSlipCell,
    FreeSlipCell,
    OutFlowCell,
    InflowCell,
}

/// The type tag of a grid cell, fixed when the grid is built.
#[derive(Clone, Copy, Debug, PartialEq, Eq, Structural)]
pub enum CellType {
    FluidCell,
    BoundaryConditionCell(BoundaryConditionCell),
    VoidCell,
}

/// The three classes of cells that the solver's sweeps tell apart.
#[derive(Clone, Copy, Debug, PartialEq, Eq, Structural)]
pub enum CellClass {
    Fluid,
    Boundary,
    Void,
}

/// A velocity component: `X` is `u`, stored on a cell's right face, and `Y`
/// is `v`, stored on its top face.
#[derive(Clone, Copy, Debug, PartialEq, Eq, Structural)]
pub enum Axis {
    X,
    Y,
}

/// One of the four axis neighbours of a cell.
#[derive(Clone, Copy, Debug, PartialEq, Eq, Structural)]
pub enum Side {
    Left,
    Right,
    Bottom,
    Top,
}

impl CellType {
    /// Whether the cell carries fluid.
    pub fn is_fluid(self) -> (r: bool)
        ensures
            r == (self is FluidCell),
    {
        match self {
            CellType::FluidCell => true,
            _ => false,
        }
    }

    /// The class of the cell: its type without the boundary kind.
    pub open spec fn class_spec(self) -> CellClass {
        match self {
            CellType::FluidCell => CellClass::Fluid,
            CellType::BoundaryConditionCell(_) => CellClass::Boundary,
            CellType::VoidCell => CellClass::Void,
        }
    }

    /// The class of the cell: its type without the boundary kind.
    pub fn class(self) -> (r: CellClass)
        ensures
            r == self.class_spec(),
    {
        match self {
            CellType::FluidCell => CellClass::Fluid,
            CellType::BoundaryConditionCell(_) => CellClass::Boundary,
            CellType::VoidCell => CellClass::Void,
        }
    }

    /// The boundary kind of a boundary-condition cell, and `None` for a fluid
    /// or void cell.
    pub fn boundary_kind(self) -> (r: Option<BoundaryConditionCell>)
        ensures
            r == match self {
                CellType::BoundaryConditionCell(kind) => Some(kind),
                _ => None,
            },
    {
        match self {
            CellType::BoundaryConditionCell(kind) => Some(kind),
            _ => None,
        }
    }
}

impl Axis {
    /// The index of this component in a velocity pair.
    pub open spec fn index_spec(self) -> int {
        match self {
            Axis::X => 0,
            Axis::Y => 1,
        }
    }

    /// The index of this component in a velocity pair: 0 for `u`, 1 for `v`.
    pub fn index(self) -> (r: usize)
        ensures
            r == self.index_spec(),
    {
        match self {
            Axis::X => 0,
            Axis::Y => 1,
        }
    }

    /// The other axis.
    pub open spec fn other_spec(self) -> Axis {
        match self {
            Axis::X => Axis::Y,
            Axis::Y => Axis::X,
        }
    }

    /// The other axis.
    pub fn other(self) -> (r: Axis)
        ensures
            r == self.other_spec(),
    {
        match self {
            Axis::X => Axis::Y,
            Axis::Y => Axis::X,
        }
    }

    /// The side on which the forward neighbour along this axis lies.
    pub open spec fn forward_spec(self) -> Side {
        match self {
            Axis::X => Side::Right,
            Axis::Y => Side::Top,
        }
    }

    /// The side on which the forward neighbour along this axis lies: right
    /// for `u`, top for `v`.
    pub fn forward(self) -> (r: Side)
        ensures
            r == self.forward_spec(),
    {
        match self {
            Axis::X => Side::Right,
            Axis::Y => Side::Top,
        }
    }
}

impl Side {
    /// The step in `x` that leads to the neighbour on this side.
    pub open spec fn dx(self) -> int {
        match self {
            Side::Left => -1,
            Side::Right => 1,
            _ => 0,
        }
    }

    /// The step in `y` that leads to the neighbour on this side.
    pub open spec fn dy(self) -> int {
        match self {
            Side::Bottom => -1,
            Side::Top => 1,
            _ => 0,
        }
    }

    /// The axis along which this side lies.
    pub open spec fn axis_spec(self) -> Axis {
        match self {
            Side::Left | Side::Right => Axis::X,
            Side::Bottom | Side::Top => Axis::Y,
        }
    }

    /// The axis along which this side lies, which is the axis normal to the
    /// face shared with the neighbour on this side.
    pub fn axis(self) -> (r: Axis)
        ensures
            r == self.axis_spec(),
    {
        match self {
            Side::Left | Side::Right => Axis::X,
            Side::Bottom | Side::Top => Axis::Y,
        }
    }

    /// The opposite side.
    pub open spec fn opposite_spec(self) -> Side {
        match self {
            Side::Left => Side::Right,
            Side::Right => Side::Left,
            Side::Bottom => Side::Top,
            Side::Top => Side::Bottom,
        }
    }

    /// The opposite side.
    pub fn opposite(self) -> (r: Side)
        ensures
            r == self.opposite_spec(),
            r.dx() == -self.dx(),
            r.dy() == -self.dy(),
    {
        match self {
            Side::Left => Side::Right,
            Side::Right => Side::Left,
            Side::Bottom => Side::Top,
            Side::Top => Side::Bottom,
        }
    }
}

} // verus!
