//! The field-of-view map: what the light needs to know of each cell, and
//! which cells are lit at the moment.
//!
//! The map records the outcome of a field-of-view computation; it does not
//! compute one. Whoever computes it reads `is_transparent` and
//! `is_walkable` and writes the outcome back with `set_in_fov`.

use crate::grid::Grid;
use vstd::prelude::*;

verus! {

/// One cell of a field-of-view map.
#[derive(Clone, Copy, Debug, PartialEq, Eq, Structural)]
pub struct FovCell {
    /// Light passes through the cell.
    pub transparent: bool,
    /// The cell can be walked on.
    pub walkable: bool,
    /// The cell is lit by the last computation.
    pub in_fov: bool,
}

impl FovCell {
    /// The cell that lets no light through, cannot be walked on and is not
    /// lit.
    pub open spec fn spec_dark() -> FovCell {
        FovCell { transparent: false, walkable: false, in_fov: false }
    }
}

/// A grid of field-of-view cells, addressed like the dungeon grid.
pub struct FovMap {
    cells: Vec<Vec<FovCell>>,
}

impl View for FovMap {
    type V = Seq<Seq<FovCell>>;

    /// The columns of the map, each a sequence of cells from top to bottom.
    closed spec fn view(&self) -> Seq<Seq<FovCell>> {
        Seq::new(self.cells@.len(), |x: int| self.cells@[x]@)
    }
}

impl FovMap {
    /// The number of columns.
    pub open spec fn spec_width(&self) -> int {
        self@.len() as int
    }

    /// The number of rows.
    pub open spec fn spec_height(&self) -> int {
        if self@.len() > 0 {
            self@[0].len() as int
        } else {
            0
        }
    }

    /// The map has at least one cell, every column has the same number of
    /// rows, and both dimensions fit the coordinate type.
    pub open spec fn wf(&self) -> bool {
        &&& 0 < self.spec_width() <= i32::MAX
        &&& 0 < self.spec_height() <= i32::MAX
        &&& forall|x: int| 0 <= x < self@.len() ==> (#[trigger] self@[x]).len() == self.spec_height()
    }

    /// Whether `(x, y)` names a cell of the map.
    pub open spec fn spec_in_bounds(&self, x: int, y: int) -> bool {
        0 <= x < self.spec_width() && 0 <= y < self.spec_height()
    }

    /// The cell at `(x, y)`.
    pub open spec fn spec_cell(&self, x: int, y: int) -> FovCell
        recommends
            self.spec_in_bounds(x, y),
    {
        self@[x][y]
    }

    /// Whether `(x, y)` is lit.
    pub open spec fn spec_is_in_fov(&self, x: int, y: int) -> bool
        recommends
            self.spec_in_bounds(x, y),
    {
        self.spec_cell(x, y).in_fov
    }

    /// Whether this map describes `grid`: the same size, a cell transparent
    /// where the tile does not block sight, walkable where the tile does
    /// not block movement.
    pub open spec fn describes(&self, grid: &Grid) -> bool {
        &&& self.spec_width() == grid.spec_width()
        &&& self.spec_height() == grid.spec_height()
        &&& forall|x: int, y: int| #![trigger self.spec_cell(x, y)]
            self.spec_in_bounds(x, y) ==> {
                &&& self.spec_cell(x, y).transparent == !grid.spec_tile(x, y).block_sight
                &&& self.spec_cell(x, y).walkable == !grid.spec_tile(x, y).blocked
            }
    }

    /// A map of the given size in which no cell is transparent, walkable
    /// or lit.
    pub fn new(width: i32, height: i32) -> (m: FovMap)
        requires
            width > 0,
            height > 0,
        ensures
            m.wf(),
            m.spec_width() == width,
            m.spec_height() == height,
            forall|x: int, y: int| #![trigger m.spec_cell(x, y)]
                m.spec_in_bounds(x, y) ==> m.spec_cell(x, y) == FovCell::spec_dark(),
    {
        let mut cells: Vec<Vec<FovCell>> = Vec::new();
        let mut x: i32 = 0;
        while x < width
            invariant
                0 <= x <= width,
                0 < height,
                cells@.len() == x,
                forall|i: int| 0 <= i < x ==> (#[trigger] cells@[i])@.len() == height,
                forall|i: int, j: int| #![trigger cells@[i]@[j]]
                    0 <= i < x && 0 <= j < height ==> cells@[i]@[j] == FovCell::spec_dark(),
            decreases width - x,
        {
            let mut column: Vec<FovCell> = Vec::new();
            let mut y: i32 = 0;
            while y < height
                invariant
                    0 <= y <= height,
                    column@.len() == y,
                    forall|j: int| 0 <= j < y ==> #[trigger] column@[j] == FovCell::spec_dark(),
                decreases height - y,
            {
                column.push(FovCell { transparent: false, walkable: false, in_fov: false });
                y = y + 1;
            }
            cells.push(column);
            x = x + 1;
        }
        FovMap { cells }
    }

    /// The size of the map as `(width, height)`.
    pub fn size(&self) -> (s: (i32, i32))
        requires
            self.wf(),
        ensures
            s.0 == self.spec_width(),
            s.1 == self.spec_height(),
    {
        (self.cells.len() as i32, self.cells[0].len() as i32)
    }

    /// Replaces the cell at `(x, y)`; every other cell stays as it was.
    fn put(&mut self, x: i32, y: i32, cell: FovCell)
        requires
            old(self).wf(),
            old(self).spec_in_bounds(x as int, y as int),
        ensures
            final(self).wf(),
            final(self).spec_width() == old(self).spec_width(),
            final(self).spec_height() == old(self).spec_height(),
            final(self)@ == old(self)@.update(x as int, old(self)@[x as int].update(y as int, cell)),
            forall|i: int, j: int| #![trigger final(self).spec_cell(i, j)]
                old(self).spec_in_bounds(i, j) && !(i == x && j == y) ==> final(self).spec_cell(i, j)
                    == old(self).spec_cell(i, j),
            final(self).spec_cell(x as int, y as int) == cell,
    {
        assert(self@[x as int].len() == self.spec_height());
        self.cells[x as usize][y as usize] = cell;
        assert(self@ =~= old(self)@.update(x as int, old(self)@[x as int].update(y as int, cell)));
    }

    /// The cell at `(x, y)`.
    pub fn cell(&self, x: i32, y: i32) -> (c: FovCell)
        requires
            self.wf(),
            self.spec_in_bounds(x as int, y as int),
        ensures
            c == self.spec_cell(x as int, y as int),
    {
        assert(self@[x as int].len() == self.spec_height());
        self.cells[x as usize][y as usize]
    }

    /// Says whether light passes through `(x, y)` and whether it can be
    /// walked on. What is lit does not change.
    pub fn set(&mut self, x: i32, y: i32, transparent: bool, walkable: bool)
        requires
            old(self).wf(),
            old(self).spec_in_bounds(x as int, y as int),
        ensures
            final(self).wf(),
            final(self).spec_width() == old(self).spec_width(),
            final(self).spec_height() == old(self).spec_height(),
            forall|i: int, j: int| #![trigger final(self).spec_cell(i, j)]
                old(self).spec_in_bounds(i, j) && !(i == x && j == y) ==> final(self).spec_cell(i, j)
                    == old(self).spec_cell(i, j),
            final(self).spec_cell(x as int, y as int) == (FovCell {
                transparent,
                walkable,
                ..old(self).spec_cell(x as int, y as int)
            }),
    {
        let in_fov = self.cell(x, y).in_fov;
        self.put(x, y, FovCell { transparent, walkable, in_fov });
    }

    /// Records whether `(x, y)` is lit. Nothing else changes.
    pub fn set_in_fov(&mut self, x: i32, y: i32, in_fov: bool)
        requires
            old(self).wf(),
            old(self).spec_in_bounds(x as int, y as int),
        ensures
            final(self).wf(),
            final(self).spec_width() == old(self).spec_width(),
            final(self).spec_height() == old(self).spec_height(),
            forall|i: int, j: int| #![trigger final(self).spec_cell(i, j)]
                old(self).spec_in_bounds(i, j) && !(i == x && j == y) ==> final(self).spec_cell(i, j)
                    == old(self).spec_cell(i, j),
            final(self).spec_cell(x as int, y as int) == (FovCell {
                in_fov,
                ..old(self).spec_cell(x as int, y as int)
            }),
    {
        let cell = self.cell(x, y);
        self.put(x, y, FovCell { transparent: cell.transparent, walkable: cell.walkable, in_fov });
    }

    /// Whether `(x, y)` is lit.
    pub fn is_in_fov(&self, x: i32, y: i32) -> (b: bool)
        requires
            self.wf(),
            self.spec_in_bounds(x as int, y as int),
        ensures
            b == self.spec_is_in_fov(x as int, y as int),
    {
        self.cell(x, y).in_fov
    }

    /// Whether light passes through `(x, y)`.
    pub fn is_transparent(&self, x: i32, y: i32) -> (b: bool)
        requires
            self.wf(),
            self.spec_in_bounds(x as int, y as int),
        ensures
            b == self.spec_cell(x as int, y as int).transparent,
    {
        self.cell(x, y).transparent
    }

    /// Whether `(x, y)` can be walked on.
    pub fn is_walkable(&self, x: i32, y: i32) -> (b: bool)
        requires
            self.wf(),
            self.spec_in_bounds(x as int, y as int),
        ensures
            b == self.spec_cell(x as int, y as int).walkable,
    {
        self.cell(x, y).walkable
    }

    /// The field-of-view map of `grid`, with nothing lit yet.
    pub fn build(grid: &Grid) -> (m: FovMap)
        requires
            grid.wf(),
            grid.spec_width() > 0,
            grid.spec_height() > 0,
        ensures
            m.wf(),
            m.describes(grid),
            forall|x: int, y: int| #![trigger m.spec_is_in_fov(x, y)]
                m.spec_in_bounds(x, y) ==> !m.spec_is_in_fov(x, y),
    {
        let width = grid.width();
        let height = grid.height();
        let mut m = FovMap::new(width, height);
        let mut y: i32 = 0;
        while y < height
            invariant
                0 <= y <= height,
                grid.wf(),
                m.wf(),
                width == grid.spec_width() == m.spec_width(),
                height == grid.spec_height() == m.spec_height(),
                forall|i: int, j: int| #![trigger m.spec_cell(i, j)]
                    m.spec_in_bounds(i, j) ==> !m.spec_cell(i, j).in_fov,
                forall|i: int, j: int| #![trigger m.spec_cell(i, j)]
                    0 <= i < width && 0 <= j < y ==> {
                        &&& m.spec_cell(i, j).transparent == !grid.spec_tile(i, j).block_sight
                        &&& m.spec_cell(i, j).walkable == !grid.spec_tile(i, j).blocked
                    },
            decreases height - y,
        {
            let mut x: i32 = 0;
            while x < width
                invariant
                    0 <= x <= width,
                    0 <= y < height,
                    grid.wf(),
                    m.wf(),
                    width == grid.spec_width() == m.spec_width(),
                    height == grid.spec_height() == m.spec_height(),
                    forall|i: int, j: int| #![trigger m.spec_cell(i, j)]
                        m.spec_in_bounds(i, j) ==> !m.spec_cell(i, j).in_fov,
                    forall|i: int, j: int| #![trigger m.spec_cell(i, j)]
                        0 <= i < width && (0 <= j < y || (j == y && i < x)) ==> {
                            &&& m.spec_cell(i, j).transparent == !grid.spec_tile(i, j).block_sight
                            &&& m.spec_cell(i, j).walkable == !grid.spec_tile(i, j).blocked
                        },
                decreases width - x,
            {
                let tile = grid.tile(x, y);
                m.set(x, y, !tile.block_sight, !tile.blocked);
                x = x + 1;
            }
            y = y + 1;
        }
        m
    }

    /// Whether this map has the size of `grid`.
    pub fn fits(&self, grid: &Grid) -> (b: bool)
        requires
            self.wf(),
            grid.wf(),
        ensures
            b == (self.spec_width() == grid.spec_width() && self.spec_height()
                == grid.spec_height()),
    {
        let (width, height) = self.size();
        width == grid.width() && height == grid.height()
    }

    /// Whether `lit` is a table of the size of this map, by column and row.
    pub open spec fn spec_takes(&self, lit: Seq<Vec<bool>>) -> bool {
        &&& lit.len() == self.spec_width()
        &&& forall|x: int| 0 <= x < lit.len() ==> (#[trigger] lit[x])@.len() == self.spec_height()
    }

    /// Whether `lit` is a table of the size of this map.
    pub fn takes(&self, lit: &Vec<Vec<bool>>) -> (b: bool)
        requires
            self.wf(),
        ensures
            b == self.spec_takes(lit@),
    {
        let (width, height) = self.size();
        if lit.len() != width as usize {
            return false;
        }
        let mut x: usize = 0;
        while x < lit.len()
            invariant
                0 <= x <= lit@.len(),
                self.wf(),
                lit@.len() == self.spec_width(),
                height == self.spec_height(),
                forall|i: int| 0 <= i < x ==> (#[trigger] lit@[i])@.len() == self.spec_height(),
            decreases lit@.len() - x,
        {
            if lit[x].len() != height as usize {
                return false;
            }
            x = x + 1;
        }
        true
    }

    /// Records the outcome of a field-of-view computation: the cell at
    /// `(x, y)` is lit exactly when `lit[x][y]` says so. What light passes
    /// through and what can be walked on does not change.
    pub fn light(&mut self, lit: &Vec<Vec<bool>>)
        requires
            old(self).wf(),
            old(self).spec_takes(lit@),
        ensures
            final(self).wf(),
            final(self).spec_width() == old(self).spec_width(),
            final(self).spec_height() == old(self).spec_height(),
            forall|x: int, y: int| #![trigger final(self).spec_cell(x, y)]
                old(self).spec_in_bounds(x, y) ==> final(self).spec_cell(x, y) == (FovCell {
                    in_fov: lit@[x]@[y],
                    ..old(self).spec_cell(x, y)
                }),
    {
        let (width, height) = self.size();
        let mut x: i32 = 0;
        while x < width
            invariant
                0 <= x <= width,
                self.wf(),
                old(self).spec_takes(lit@),
                width == self.spec_width() == old(self).spec_width(),
                height == self.spec_height() == old(self).spec_height(),
                forall|i: int, j: int| #![trigger self.spec_cell(i, j)]
                    old(self).spec_in_bounds(i, j) ==> self.spec_cell(i, j) == if i < x {
                        FovCell { in_fov: lit@[i]@[j], ..old(self).spec_cell(i, j) }
                    } else {
                        old(self).spec_cell(i, j)
                    },
            decreases width - x,
        {
            let mut y: i32 = 0;
            while y < height
                invariant
                    0 <= x < width,
                    0 <= y <= height,
                    self.wf(),
                    old(self).spec_takes(lit@),
                    width == self.spec_width() == old(self).spec_width(),
                    height == self.spec_height() == old(self).spec_height(),
                    forall|i: int, j: int| #![trigger self.spec_cell(i, j)]
                        old(self).spec_in_bounds(i, j) ==> self.spec_cell(i, j) == if i < x || (i
                            == x && j < y) {
                            FovCell { in_fov: lit@[i]@[j], ..old(self).spec_cell(i, j) }
                        } else {
                            old(self).spec_cell(i, j)
                        },
                decreases height - y,
            {
                let in_fov = lit[x as usize][y as usize];
                self.set_in_fov(x, y, in_fov);
                y = y + 1;
            }
            x = x + 1;
        }
    }
}

} // verus!
