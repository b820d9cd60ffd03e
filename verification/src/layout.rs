//! The rectangular layout of cell types and its neighbour queries.
//!
//! A layout is indexed as `[x][y]`: the outer sequence runs over `x`, and
//! each inner sequence is the column of cells that share that `x`.

use vstd::prelude::*;
use crate::cell::{Axis, CellClass, CellType, Side};

verus! {

/// The mathematical model of a layout: columns of cell types.
pub type Columns = Seq<Seq<CellType>>;

/// The columns held by a vector of vectors.
pub open spec fn columns_of(cells: Seq<Vec<CellType>>) -> Columns {
    Seq::new(cells.len(), |x: int| cells[x]@)
}

/// The number of columns.
pub open spec fn width(g: Columns) -> nat {
    g.len()
}

/// The number of cells in the first column, and 0 where there is no column.
pub open spec fn height(g: Columns) -> nat {
    if g.len() == 0 {
        0
    } else {
        g[0].len()
    }
}

/// All columns have the same length.
pub open spec fn rectangular(g: Columns) -> bool {
    forall|x: int| 0 <= x < g.len() ==> (#[trigger] g[x]).len() == height(g)
}

/// The coordinate lies inside the grid.
pub open spec fn in_grid(g: Columns, x: int, y: int) -> bool {
    0 <= x < g.len() && 0 <= y < g[x].len()
}

/// The type of the cell at a coordinate, and `None` outside the grid.
pub open spec fn cell_at(g: Columns, x: int, y: int) -> Option<CellType> {
    if in_grid(g, x, y) {
        Some(g[x][y])
    } else {
        None
    }
}

/// Whether the cell at a coordinate exists and carries fluid.
pub open spec fn fluid_at(g: Columns, x: int, y: int) -> bool {
    cell_at(g, x, y) == Some(CellType::FluidCell)
}

/// The coordinate of the neighbour on a side, and `None` where that
/// coordinate lies outside the grid.
pub open spec fn neighbor_at(g: Columns, x: int, y: int, side: Side) -> Option<(usize, usize)> {
    if in_grid(g, x + side.dx(), y + side.dy()) {
        Some(((x + side.dx()) as usize, (y + side.dy()) as usize))
    } else {
        None
    }
}

/// The neighbour on a side as a one-element sequence if it carries fluid,
/// and the empty sequence otherwise.
pub open spec fn fluid_on_side(g: Columns, x: int, y: int, side: Side) -> Seq<(usize, usize)> {
    if fluid_at(g, x + side.dx(), y + side.dy()) {
        seq![((x + side.dx()) as usize, (y + side.dy()) as usize)]
    } else {
        Seq::empty()
    }
}

/// The fluid cells among the four axis neighbours, in the order left, right,
/// bottom, top.
pub open spec fn fluid_neighbors_at(g: Columns, x: int, y: int) -> Seq<(usize, usize)> {
    fluid_on_side(g, x, y, Side::Left) + fluid_on_side(g, x, y, Side::Right) + fluid_on_side(
        g,
        x,
        y,
        Side::Bottom,
    ) + fluid_on_side(g, x, y, Side::Top)
}

/// The number of fluid cells in one column.
pub open spec fn count_fluid_in_column(col: Seq<CellType>) -> nat
    decreases col.len(),
{
    if col.len() == 0 {
        0
    } else {
        count_fluid_in_column(col.drop_last()) + if col.last() is FluidCell {
            1nat
        } else {
            0nat
        }
    }
}

/// The number of fluid cells in the grid.
pub open spec fn count_fluid(g: Columns) -> nat
    decreases g.len(),
{
    if g.len() == 0 {
        0
    } else {
        count_fluid(g.drop_last()) + count_fluid_in_column(g.last())
    }
}

/// The cell has a neighbour inside the grid on each of its four sides.
pub open spec fn interior(g: Columns, x: int, y: int) -> bool {
    1 <= x && x + 1 < width(g) && 1 <= y && y + 1 < height(g)
}

/// Every fluid cell is an interior cell: the fluid is enclosed by cells of
/// other types, so that each stencil on a fluid cell finds its neighbours.
pub open spec fn fluid_enclosed(g: Columns) -> bool {
    forall|x: int, y: int| #[trigger] fluid_at(g, x, y) ==> interior(g, x, y)
}

/// The predictor computes the component `axis` at this cell: the cell and
/// its forward neighbour along the axis both carry fluid.
pub open spec fn predicts_at(g: Columns, x: int, y: int, axis: Axis) -> bool {
    fluid_at(g, x, y) && fluid_at(
        g,
        x + axis.forward_spec().dx(),
        y + axis.forward_spec().dy(),
    )
}

/// The corrector projects the component `axis` at this cell: the cell
/// carries fluid, and its forward neighbour along the axis exists and is no
/// boundary-condition cell.
pub open spec fn corrects_at(g: Columns, x: int, y: int, axis: Axis) -> bool {
    fluid_at(g, x, y) && match cell_at(
        g,
        x + axis.forward_spec().dx(),
        y + axis.forward_spec().dy(),
    ) {
        Some(CellType::BoundaryConditionCell(_)) => false,
        Some(_) => true,
        None => false,
    }
}

/// Whether the cell at a coordinate exists and is of the given class.
pub open spec fn class_at(g: Columns, x: int, y: int, class: CellClass) -> bool {
    in_grid(g, x, y) && g[x][y].class_spec() == class
}

/// The order in which a sweep visits the cells: by `x`, and within one
/// column by `y`.
pub open spec fn raster_before(a: (usize, usize), b: (usize, usize)) -> bool {
    a.0 < b.0 || (a.0 == b.0 && a.1 < b.1)
}

/// The coordinates stand in strictly ascending raster order.
pub open spec fn in_raster_order(cells: Seq<(usize, usize)>) -> bool {
    forall|i: int, j: int| 0 <= i < j < cells.len() ==> raster_before(cells[i], cells[j])
}

/// A rectangular grid of cell types, fixed once it is built.
pub struct CellLayout {
    cells: Vec<Vec<CellType>>,
    nx: usize,
    ny: usize,
}

impl View for CellLayout {
    type V = Columns;

    closed spec fn view(&self) -> Columns {
        columns_of(self.cells@)
    }
}

impl CellLayout {
    #[verifier::type_invariant]
    spec fn well_formed(&self) -> bool {
        &&& self.cells@.len() == self.nx
        &&& forall|x: int| 0 <= x < self.nx ==> (#[trigger] self.cells@[x]).len() == self.ny
        &&& (self.nx == 0 ==> self.ny == 0)
        &&& self.nx * self.ny <= usize::MAX
    }

    /// Builds a layout from its columns. The columns must all have the same
    /// length, and the number of cells must fit the machine word.
    pub fn new(cells: Vec<Vec<CellType>>) -> (r: Option<CellLayout>)
        ensures
            r is Some <==> rectangular(columns_of(cells@)) && width(columns_of(cells@)) * height(
                columns_of(cells@),
            ) <= usize::MAX,
            r is Some ==> r.unwrap()@ == columns_of(cells@),
    {
        let ghost g = columns_of(cells@);
        let nx: usize = cells.len();
        let ny: usize = if nx == 0 {
            0
        } else {
            cells[0].len()
        };
        let mut x: usize = 0;
        while x < nx
            invariant
                x <= nx,
                nx == cells@.len(),
                g == columns_of(cells@),
                ny == height(g),
                forall|i: int| 0 <= i < x ==> (#[trigger] g[i]).len() == ny,
            decreases nx - x,
        {
            if cells[x].len() != ny {
                assert(g[x as int].len() != height(g));
                return None;
            }
            x = x + 1;
        }
        match nx.checked_mul(ny) {
            None => None,
            Some(_) => {
                assert forall|i: int| 0 <= i < nx implies (#[trigger] cells@[i]).len() == ny by {
                    assert(g[i].len() == ny);
                }
                Some(CellLayout { cells, nx, ny })
            },
        }
    }

    /// The grid's size: the number of columns, then the number of cells in
    /// each column.
    pub fn space_size(&self) -> (r: [usize; 2])
        ensures
            r[0] == width(self@),
            r[1] == height(self@),
            rectangular(self@),
            width(self@) * height(self@) <= usize::MAX,
    {
        proof {
            use_type_invariant(self);
            self.lemma_shape();
        }
        [self.nx, self.ny]
    }

    proof fn lemma_shape(&self)
        requires
            self.well_formed(),
        ensures
            width(self@) == self.nx,
            height(self@) == self.ny,
            rectangular(self@),
            forall|x: int, y: int|
                0 <= x < self.nx && 0 <= y < self.ny ==> #[trigger] cell_at(self@, x, y) == Some(
                    self.cells@[x]@[y],
                ),
            forall|x: int, y: int|
                #![trigger cell_at(self@, x, y)]
                #![trigger in_grid(self@, x, y)]
                in_grid(self@, x, y) <==> 0 <= x < self.nx && 0 <= y < self.ny,
    {
        let g = self@;
        assert forall|x: int| 0 <= x < g.len() implies (#[trigger] g[x]).len() == self.ny by {
            assert(self.cells@[x].len() == self.ny);
        }
    }

    /// The type of the cell at a coordinate, and `None` where the coordinate
    /// lies outside the grid.
    pub fn try_get_cell_type(&self, x: usize, y: usize) -> (r: Option<CellType>)
        ensures
            r == cell_at(self@, x as int, y as int),
    {
        proof {
            use_type_invariant(self);
            self.lemma_shape();
        }
        if x < self.nx && y < self.ny {
            Some(self.cells[x][y])
        } else {
            None
        }
    }

    /// The type of the cell at a coordinate inside the grid.
    pub fn get_cell_type(&self, x: usize, y: usize) -> (r: CellType)
        requires
            in_grid(self@, x as int, y as int),
        ensures
            Some(r) == cell_at(self@, x as int, y as int),
    {
        proof {
            use_type_invariant(self);
            self.lemma_shape();
        }
        self.cells[x][y]
    }

    /// The coordinate of the neighbour on a side. A step below 0 or past the
    /// last index gives `None`: it never wraps round to the opposite edge.
    pub fn neighbor(&self, x: usize, y: usize, side: Side) -> (r: Option<(usize, usize)>)
        ensures
            r == neighbor_at(self@, x as int, y as int, side),
    {
        proof {
            use_type_invariant(self);
            self.lemma_shape();
        }
        match side {
            Side::Left => {
                if 1 <= x && x - 1 < self.nx && y < self.ny {
                    Some((x - 1, y))
                } else {
                    None
                }
            },
            Side::Right => {
                if x < usize::MAX && x + 1 < self.nx && y < self.ny {
                    Some((x + 1, y))
                } else {
                    None
                }
            },
            Side::Bottom => {
                if 1 <= y && x < self.nx && y - 1 < self.ny {
                    Some((x, y - 1))
                } else {
                    None
                }
            },
            Side::Top => {
                if y < usize::MAX && x < self.nx && y + 1 < self.ny {
                    Some((x, y + 1))
                } else {
                    None
                }
            },
        }
    }

    /// The type of the neighbour on a side, and `None` where the grid has no
    /// cell there.
    pub fn neighbor_type(&self, x: usize, y: usize, side: Side) -> (r: Option<CellType>)
        ensures
            r == cell_at(self@, x + side.dx(), y + side.dy()),
    {
        proof {
            use_type_invariant(self);
            self.lemma_shape();
        }
        match self.neighbor(x, y, side) {
            Some((a, b)) => Some(self.get_cell_type(a, b)),
            None => None,
        }
    }

    /// Whether the neighbour on a side exists and carries fluid.
    pub fn has_fluid_on(&self, x: usize, y: usize, side: Side) -> (r: bool)
        ensures
            r == fluid_at(self@, x + side.dx(), y + side.dy()),
    {
        match self.neighbor_type(x, y, side) {
            Some(CellType::FluidCell) => true,
            _ => false,
        }
    }

    /// The fluid cells among the four axis neighbours of a cell, in the order
    /// left, right, bottom, top: the cells whose pressures a boundary cell
    /// averages, in the order in which they are summed.
    pub fn fluid_neighbors(&self, x: usize, y: usize) -> (r: Vec<(usize, usize)>)
        ensures
            r@ == fluid_neighbors_at(self@, x as int, y as int),
    {
        proof {
            use_type_invariant(self);
            self.lemma_shape();
        }
        let mut found: Vec<(usize, usize)> = Vec::new();
        if self.has_fluid_on(x, y, Side::Left) {
            found.push((x - 1, y));
        }
        assert(found@ =~= fluid_on_side(self@, x as int, y as int, Side::Left));
        if self.has_fluid_on(x, y, Side::Right) {
            found.push((x + 1, y));
        }
        assert(found@ =~= fluid_on_side(self@, x as int, y as int, Side::Left) + fluid_on_side(
            self@,
            x as int,
            y as int,
            Side::Right,
        ));
        if self.has_fluid_on(x, y, Side::Bottom) {
            found.push((x, y - 1));
        }
        assert(found@ =~= fluid_on_side(self@, x as int, y as int, Side::Left) + fluid_on_side(
            self@,
            x as int,
            y as int,
            Side::Right,
        ) + fluid_on_side(self@, x as int, y as int, Side::Bottom));
        if self.has_fluid_on(x, y, Side::Top) {
            found.push((x, y + 1));
        }
        assert(found@ =~= fluid_neighbors_at(self@, x as int, y as int));
        found
    }

    /// The number of fluid cells among the four axis neighbours of a cell.
    pub fn neighboring_fluid_count(&self, x: usize, y: usize) -> (r: u8)
        ensures
            r == fluid_neighbors_at(self@, x as int, y as int).len(),
            r <= 4,
    {
        let mut count: u8 = 0;
        if self.has_fluid_on(x, y, Side::Left) {
            count = count + 1;
        }
        if self.has_fluid_on(x, y, Side::Right) {
            count = count + 1;
        }
        if self.has_fluid_on(x, y, Side::Bottom) {
            count = count + 1;
        }
        if self.has_fluid_on(x, y, Side::Top) {
            count = count + 1;
        }
        count
    }

    /// The divisor of a boundary cell's pressure mean: the number of adjacent
    /// fluid cells, and `None` where there is none, in which case the
    /// pressure is zero and nothing is divided.
    pub fn mean_divisor(&self, x: usize, y: usize) -> (r: Option<u8>)
        ensures
            r is None <==> fluid_neighbors_at(self@, x as int, y as int).len() == 0,
            r matches Some(n) ==> n == fluid_neighbors_at(self@, x as int, y as int).len() && 1
                <= n <= 4,
    {
        let count: u8 = self.neighboring_fluid_count(x, y);
        if count != 0 {
            Some(count)
        } else {
            None
        }
    }

    /// Whether the predictor computes the component `axis` at a cell.
    pub fn predicts(&self, x: usize, y: usize, axis: Axis) -> (r: bool)
        ensures
            r == predicts_at(self@, x as int, y as int, axis),
    {
        match self.try_get_cell_type(x, y) {
            Some(CellType::FluidCell) => self.has_fluid_on(x, y, axis.forward()),
            _ => false,
        }
    }

    /// Whether the corrector projects the component `axis` at a cell.
    pub fn corrects(&self, x: usize, y: usize, axis: Axis) -> (r: bool)
        ensures
            r == corrects_at(self@, x as int, y as int, axis),
    {
        match self.try_get_cell_type(x, y) {
            Some(CellType::FluidCell) => {
                match self.neighbor_type(x, y, axis.forward()) {
                    Some(CellType::BoundaryConditionCell(_)) => false,
                    Some(_) => true,
                    None => false,
                }
            },
            _ => false,
        }
    }

    /// The number of fluid cells in the grid.
    pub fn fluid_cell_count(&self) -> (r: usize)
        ensures
            r == count_fluid(self@),
    {
        proof {
            use_type_invariant(self);
            self.lemma_shape();
        }
        let ghost g = self@;
        let mut total: usize = 0;
        let mut x: usize = 0;
        while x < self.nx
            invariant
                self.well_formed(),
                g == self@,
                width(g) == self.nx,
                x <= self.nx,
                total == count_fluid(g.take(x as int)),
                total <= x * self.ny,
            decreases self.nx - x,
        {
            let in_column: usize = count_in_column(&self.cells[x]);
            proof {
                assert(g[x as int] == self.cells@[x as int]@);
                assert(g.take(x + 1).drop_last() =~= g.take(x as int));
                assert(g.take(x + 1).last() == g[x as int]);
                assert((x + 1) * self.ny <= self.nx * self.ny) by (nonlinear_arith)
                    requires
                        x + 1 <= self.nx,
                ;
                assert((x + 1) * self.ny == x * self.ny + self.ny) by (nonlinear_arith);
            }
            total = total + in_column;
            x = x + 1;
        }
        assert(g.take(x as int) =~= g);
        total
    }

    /// The cells of one class, in the order in which a sweep visits them: by
    /// `x`, and within one column by `y`. Each cell of the class occurs once.
    pub fn cells_of_class(&self, class: CellClass) -> (r: Vec<(usize, usize)>)
        ensures
            lists_class(self@, class, r@),
            class == CellClass::Fluid ==> r@.len() == count_fluid(self@),
    {
        proof {
            use_type_invariant(self);
            self.lemma_shape();
        }
        let ghost g = self@;
        let mut found: Vec<(usize, usize)> = Vec::new();
        let mut x: usize = 0;
        while x < self.nx
            invariant
                self.well_formed(),
                g == self@,
                x <= self.nx,
                in_raster_order(found@),
                forall|k: int|
                    0 <= k < found@.len() ==> (#[trigger] found@[k]).0 < x && class_at(
                        g,
                        found@[k].0 as int,
                        found@[k].1 as int,
                        class,
                    ),
                forall|i: int, j: int|
                    0 <= i < x && #[trigger] class_at(g, i, j, class) ==> found@.contains(
                        (i as usize, j as usize),
                    ),
                class == CellClass::Fluid ==> found@.len() == count_fluid(g.take(x as int)),
            decreases self.nx - x,
        {
            let ghost prior = found@;
            collect_in_column(&self.cells[x], x, class, &mut found);
            proof {
                self.lemma_shape();
                let col = self.cells@[x as int]@;
                assert(g[x as int] == col);
                assert(g.take(x + 1).drop_last() =~= g.take(x as int));
                assert(g.take(x + 1).last() == g[x as int]);
                assert forall|k: int| 0 <= k < prior.len() implies found@[k] == prior[k] by {
                    assert(found@.subrange(0, prior.len() as int)[k] == found@[k]);
                }
                assert forall|k: int| 0 <= k < found@.len() implies (#[trigger] found@[k]).0 < x
                    + 1 && class_at(g, found@[k].0 as int, found@[k].1 as int, class) by {
                    if k < prior.len() {
                        assert(found@[k] == prior[k]);
                    } else {
                        assert(found@[k].0 == x);
                        assert(col[found@[k].1 as int].class_spec() == class);
                    }
                }
                assert forall|i: int, j: int| 0 <= i < j < found@.len() implies raster_before(
                    found@[i],
                    found@[j],
                ) by {
                    if j < prior.len() {
                        assert(found@[i] == prior[i] && found@[j] == prior[j]);
                    } else if i < prior.len() {
                        assert(found@[i] == prior[i]);
                        assert(found@[j].0 == x);
                    } else {
                        assert(found@[i].0 == x && found@[j].0 == x);
                        assert(found@[i].1 < found@[j].1);
                    }
                }
                assert forall|i: int, j: int|
                    0 <= i < x + 1 && #[trigger] class_at(g, i, j, class) implies found@.contains(
                    (i as usize, j as usize),
                ) by {
                    if i < x {
                        assert(prior.contains((i as usize, j as usize)));
                        let k = choose|k: int|
                            0 <= k < prior.len() && prior[k] == (i as usize, j as usize);
                        assert(found@[k] == (i as usize, j as usize));
                    } else {
                        assert(col[j].class_spec() == class);
                        let k = choose|k: int|
                            prior.len() <= k < found@.len() && found@[k] == (x, j as usize);
                        assert(found@[k] == (i as usize, j as usize));
                    }
                }
            }
            x = x + 1;
        }
        proof {
            assert(g.take(x as int) =~= g);
            self.lemma_shape();
        }
        found
    }

    /// Whether every fluid cell is an interior cell.
    pub fn is_fluid_enclosed(&self) -> (r: bool)
        ensures
            r == fluid_enclosed(self@),
    {
        proof {
            use_type_invariant(self);
            self.lemma_shape();
        }
        let ghost g = self@;
        let mut x: usize = 0;
        while x < self.nx
            invariant
                self.well_formed(),
                g == self@,
                x <= self.nx,
                forall|i: int, j: int|
                    0 <= i < x && #[trigger] fluid_at(g, i, j) ==> interior(g, i, j),
            decreases self.nx - x,
        {
            let mut y: usize = 0;
            while y < self.ny
                invariant
                    self.well_formed(),
                    g == self@,
                    x < self.nx,
                    y <= self.ny,
                    forall|i: int, j: int|
                        0 <= i < x && #[trigger] fluid_at(g, i, j) ==> interior(g, i, j),
                    forall|j: int|
                        0 <= j < y && #[trigger] fluid_at(g, x as int, j) ==> interior(
                            g,
                            x as int,
                            j,
                        ),
                decreases self.ny - y,
            {
                proof {
                    self.lemma_shape();
                }
                if self.cells[x][y].is_fluid() {
                    if x == 0 || x + 1 >= self.nx || y == 0 || y + 1 >= self.ny {
                        assert(fluid_at(g, x as int, y as int));
                        assert(!interior(g, x as int, y as int));
                        return false;
                    }
                }
                y = y + 1;
            }
            x = x + 1;
        }
        proof {
            self.lemma_shape();
        }
        true
    }
}

/// The cells of one class in a column, appended to `found` in ascending `y`.
fn collect_in_column(
    col: &Vec<CellType>,
    x: usize,
    class: CellClass,
    found: &mut Vec<(usize, usize)>,
)
    ensures
        final(found)@.len() >= old(found)@.len(),
        final(found)@.subrange(0, old(found)@.len() as int) == old(found)@,
        forall|k: int|
            old(found)@.len() <= k < final(found)@.len() ==> (#[trigger] final(found)@[k]).0 == x
                && final(found)@[k].1 < col@.len() && col@[final(found)@[k].1 as int].class_spec()
                == class,
        forall|i: int, j: int|
            old(found)@.len() <= i < j < final(found)@.len() ==> (#[trigger] final(found)@[i]).1 < (
            #[trigger] final(found)@[j]).1,
        forall|y: int|
            0 <= y < col@.len() && (#[trigger] col@[y]).class_spec() == class ==> exists|k: int|
                old(found)@.len() <= k < final(found)@.len() && final(found)@[k] == (
                    x,
                    y as usize,
                ),
        class == CellClass::Fluid ==> final(found)@.len() - old(found)@.len()
            == count_fluid_in_column(col@),
{
    let ghost before = found@;
    let mut y: usize = 0;
    while y < col.len()
        invariant
            y <= col@.len(),
            found@.len() >= before.len(),
            found@.subrange(0, before.len() as int) == before,
            forall|k: int|
                before.len() <= k < found@.len() ==> (#[trigger] found@[k]).0 == x && found@[k].1
                    < y && col@[found@[k].1 as int].class_spec() == class,
            forall|i: int, j: int|
                before.len() <= i < j < found@.len() ==> (#[trigger] found@[i]).1 < (
                #[trigger] found@[j]).1,
            forall|j: int|
                0 <= j < y && (#[trigger] col@[j]).class_spec() == class ==> exists|k: int|
                    before.len() <= k < found@.len() && found@[k] == (x, j as usize),
            class == CellClass::Fluid ==> found@.len() - before.len() == count_fluid_in_column(
                col@.take(y as int),
            ),
        decreases col@.len() - y,
    {
        proof {
            assert(col@.take(y + 1).drop_last() =~= col@.take(y as int));
            assert(col@.take(y + 1).last() == col@[y as int]);
        }
        let ghost prior = found@;
        if col[y].class() == class {
            found.push((x, y));
            proof {
                assert(found@.subrange(0, before.len() as int) =~= prior.subrange(
                    0,
                    before.len() as int,
                ));
                assert(found@[prior.len() as int] == (x, y));
                assert forall|j: int|
                    0 <= j < y + 1 && (#[trigger] col@[j]).class_spec() == class implies exists|
                    k: int,
                |
                    before.len() <= k < found@.len() && found@[k] == (x, j as usize) by {
                    if j < y {
                        let k = choose|k: int|
                            before.len() <= k < prior.len() && prior[k] == (x, j as usize);
                        assert(found@[k] == (x, j as usize));
                    } else {
                        assert(found@[prior.len() as int] == (x, j as usize));
                    }
                }
            }
        }
        y = y + 1;
    }
    assert(col@.take(y as int) =~= col@);
}

/// The number of fluid cells in one column.
fn count_in_column(col: &Vec<CellType>) -> (r: usize)
    ensures
        r == count_fluid_in_column(col@),
        r <= col@.len(),
{
    let mut count: usize = 0;
    let mut y: usize = 0;
    while y < col.len()
        invariant
            y <= col@.len(),
            count == count_fluid_in_column(col@.take(y as int)),
            count <= y,
        decreases col@.len() - y,
    {
        proof {
            assert(col@.take(y + 1).drop_last() =~= col@.take(y as int));
            assert(col@.take(y + 1).last() == col@[y as int]);
        }
        if col[y].is_fluid() {
            count = count + 1;
        }
        y = y + 1;
    }
    assert(col@.take(y as int) =~= col@);
    count
}

/// The cells of a class, listed in raster order: every listed cell is of
/// the class, every cell of the class is listed, and the list ascends.
pub open spec fn lists_class(g: Columns, class: CellClass, cells: Seq<(usize, usize)>) -> bool {
    &&& in_raster_order(cells)
    &&& forall|k: int|
        0 <= k < cells.len() ==> class_at(
            g,
            (#[trigger] cells[k]).0 as int,
            cells[k].1 as int,
            class,
        )
    &&& forall|x: int, y: int| #[trigger]
        class_at(g, x, y, class) ==> cells.contains((x as usize, y as usize))
}

/// There is one list of the cells of a class in raster order: two lists
/// that both meet the description are equal.
pub proof fn lemma_class_listing_is_unique(
    g: Columns,
    class: CellClass,
    a: Seq<(usize, usize)>,
    b: Seq<(usize, usize)>,
)
    requires
        lists_class(g, class, a),
        lists_class(g, class, b),
    ensures
        a == b,
{
    lemma_listings_agree(g, class, a, b, a.len() as int);
    lemma_listings_agree(g, class, b, a, b.len() as int);
    assert(a =~= b);
}

proof fn lemma_listings_agree(
    g: Columns,
    class: CellClass,
    a: Seq<(usize, usize)>,
    b: Seq<(usize, usize)>,
    upto: int,
)
    requires
        lists_class(g, class, a),
        lists_class(g, class, b),
        0 <= upto <= a.len(),
    ensures
        upto <= b.len(),
        forall|k: int| 0 <= k < upto ==> a[k] == b[k],
    decreases upto,
{
    if upto > 0 {
        lemma_listings_agree(g, class, a, b, upto - 1);
        let k = upto - 1;
        assert(class_at(g, a[k].0 as int, a[k].1 as int, class));
        assert(b.contains(a[k]));
        let j = choose|j: int| 0 <= j < b.len() && b[j] == a[k];
        if j < k {
            assert(a[j] == b[j]);
            assert(raster_before(a[j], a[k]));
        } else if j > k {
            assert(class_at(g, b[k].0 as int, b[k].1 as int, class));
            assert(a.contains(b[k]));
            let i = choose|i: int| 0 <= i < a.len() && a[i] == b[k];
            assert(raster_before(b[k], b[j]));
            if i < k {
                assert(a[i] == b[i]);
                assert(raster_before(b[i], b[k]));
            } else if i > k {
                assert(raster_before(a[k], a[i]));
            }
        }
    }
}

/// A step off the low edge finds no neighbour: at `x == 0` there is none on
/// the left, and at `y == 0` none below, whatever the grid's size.
pub proof fn lemma_no_neighbor_below_zero(g: Columns, x: int, y: int)
    ensures
        neighbor_at(g, 0, y, Side::Left) is None,
        neighbor_at(g, x, 0, Side::Bottom) is None,
{
}

/// A step off the high edge finds no neighbour: in a rectangular grid the
/// last column has none on the right, and the last row none above.
pub proof fn lemma_no_neighbor_past_end(g: Columns, x: int, y: int)
    requires
        rectangular(g),
    ensures
        neighbor_at(g, width(g) - 1, y, Side::Right) is None,
        neighbor_at(g, x, height(g) - 1, Side::Top) is None,
{
}

/// In a grid whose fluid is enclosed, every cell of the three-by-three block
/// round a fluid cell lies inside the grid: the cells that the stencils of
/// the predictor, of the right-hand side and of the relaxation read.
pub proof fn lemma_enclosed_block_in_grid(g: Columns, x: int, y: int, dx: int, dy: int)
    requires
        rectangular(g),
        fluid_enclosed(g),
        fluid_at(g, x, y),
        -1 <= dx <= 1,
        -1 <= dy <= 1,
    ensures
        in_grid(g, x + dx, y + dy),
{
    assert(interior(g, x, y));
    assert(g[x + dx].len() == height(g));
}

/// In a grid whose fluid is enclosed, the cell two steps from a cell towards
/// an adjacent fluid cell lies inside the grid: the cell from which an
/// outflow boundary extrapolates.
pub proof fn lemma_enclosed_second_step_in_grid(g: Columns, x: int, y: int, side: Side)
    requires
        rectangular(g),
        fluid_enclosed(g),
        fluid_at(g, x + side.dx(), y + side.dy()),
    ensures
        in_grid(g, x + 2 * side.dx(), y + 2 * side.dy()),
{
    lemma_enclosed_block_in_grid(g, x + side.dx(), y + side.dy(), side.dx(), side.dy());
}

/// Every component that the predictor computes, the corrector projects.
pub proof fn lemma_predicted_is_corrected(g: Columns, x: int, y: int, axis: Axis)
    requires
        predicts_at(g, x, y, axis),
    ensures
        corrects_at(g, x, y, axis),
{
}

/// A component whose forward neighbour is a boundary-condition cell is left
/// to the boundary rules: neither the predictor nor the corrector writes it.
pub proof fn lemma_boundary_face_is_left_alone(g: Columns, x: int, y: int, axis: Axis)
    requires
        class_at(
            g,
            x + axis.forward_spec().dx(),
            y + axis.forward_spec().dy(),
            CellClass::Boundary,
        ),
    ensures
        !predicts_at(g, x, y, axis),
        !corrects_at(g, x, y, axis),
{
}

/// A column holds at most as many fluid cells as it has cells.
pub proof fn lemma_count_fluid_in_column_bound(col: Seq<CellType>)
    ensures
        count_fluid_in_column(col) <= col.len(),
    decreases col.len(),
{
    if col.len() > 0 {
        lemma_count_fluid_in_column_bound(col.drop_last());
    }
}

/// A rectangular grid holds at most as many fluid cells as it has cells.
pub proof fn lemma_count_fluid_bound(g: Columns)
    requires
        rectangular(g),
    ensures
        count_fluid(g) <= width(g) * height(g),
    decreases g.len(),
{
    if g.len() > 0 {
        let rest = g.drop_last();
        assert(rectangular(rest)) by {
            assert forall|x: int| 0 <= x < rest.len() implies (#[trigger] rest[x]).len() == height(
                rest,
            ) by {
                assert(rest[x] == g[x]);
                assert(rest[0] == g[0]);
            }
        }
        lemma_count_fluid_bound(rest);
        lemma_count_fluid_in_column_bound(g.last());
        assert(g.last() == g[g.len() - 1]);
        if rest.len() == 0 {
            assert(count_fluid(rest) == 0);
        } else {
            assert(rest[0] == g[0]);
            assert(height(rest) == height(g));
        }
        assert(count_fluid(g) <= width(g) * height(g)) by (nonlinear_arith)
            requires
                count_fluid(g) <= count_fluid(rest) + height(g),
                rest.len() == 0 ==> count_fluid(rest) == 0,
                rest.len() > 0 ==> count_fluid(rest) <= (width(g) - 1) * height(g),
                width(g) >= 1,
                width(g) - 1 == rest.len(),
        ;
    }
}

/// A column counts no fluid cell exactly when none of its cells is fluid.
pub proof fn lemma_count_fluid_in_column_zero(col: Seq<CellType>)
    ensures
        count_fluid_in_column(col) == 0 <==> forall|y: int|
            0 <= y < col.len() ==> !((#[trigger] col[y]) is FluidCell),
    decreases col.len(),
{
    if col.len() > 0 {
        let rest = col.drop_last();
        lemma_count_fluid_in_column_zero(rest);
        if count_fluid_in_column(col) == 0 {
            assert forall|y: int| 0 <= y < col.len() implies !((#[trigger] col[y])
                is FluidCell) by {
                if y < rest.len() {
                    assert(rest[y] == col[y]);
                }
            }
        } else {
            if count_fluid_in_column(rest) != 0 {
                let y = choose|y: int| 0 <= y < rest.len() && (#[trigger] rest[y]) is FluidCell;
                assert(col[y] is FluidCell);
            } else {
                assert(col[col.len() - 1] is FluidCell);
            }
        }
    }
}

/// The grid counts no fluid cell exactly when no coordinate holds one: the
/// count by which the residual is averaged is zero only for a grid without
/// fluid.
pub proof fn lemma_count_fluid_zero(g: Columns)
    ensures
        count_fluid(g) == 0 <==> forall|x: int, y: int| !#[trigger] fluid_at(g, x, y),
    decreases g.len(),
{
    if g.len() > 0 {
        let rest = g.drop_last();
        let last = g.len() - 1;
        lemma_count_fluid_zero(rest);
        lemma_count_fluid_in_column_zero(g.last());
        if count_fluid(g) == 0 {
            assert forall|x: int, y: int| !#[trigger] fluid_at(g, x, y) by {
                if in_grid(g, x, y) {
                    if x < last {
                        assert(rest[x] == g[x]);
                        assert(!fluid_at(rest, x, y));
                    } else {
                        assert(!(g.last()[y] is FluidCell));
                    }
                }
            }
        } else {
            if count_fluid(rest) != 0 {
                let (x, y) = choose|x: int, y: int| #[trigger] fluid_at(rest, x, y);
                assert(rest[x] == g[x]);
                assert(fluid_at(g, x, y));
            } else {
                let y = choose|y: int|
                    0 <= y < g.last().len() && (#[trigger] g.last()[y]) is FluidCell;
                assert(fluid_at(g, last, y));
            }
        }
    }
}

} // verus!
