//! The dungeon grid: a rectangle of tiles addressed by column and row.

use crate::tile::Tile;
use vstd::prelude::*;

verus! {

/// A grid of tiles. The origin `(0, 0)` is the top-left cell; `x` counts
/// columns and `y` counts rows.
pub struct Grid {
    tiles: Vec<Vec<Tile>>,
}

impl View for Grid {
    type V = Seq<Seq<Tile>>;

    /// The columns of the grid, each a sequence of tiles from top to bottom.
    closed spec fn view(&self) -> Seq<Seq<Tile>> {
        Seq::new(self.tiles@.len(), |x: int| self.tiles@[x]@)
    }
}

impl Grid {
    /// The number of columns.
    pub open spec fn spec_width(&self) -> int {
        self@.len() as int
    }

    /// The number of rows.
    pub open spec fn spec_height(&self) -> int {
        if self@.len() > 0 {
            self@[0].len() as int
        } else {
            0
        }
    }

    /// Every column has the same number of rows, and both dimensions fit
    /// the coordinate type.
    pub open spec fn wf(&self) -> bool {
        &&& self.spec_width() <= i32::MAX
        &&& self.spec_height() <= i32::MAX
        &&& forall|x: int| 0 <= x < self@.len() ==> (#[trigger] self@[x]).len() == self.spec_height()
    }

    /// Whether `(x, y)` names a cell of the grid.
    pub open spec fn spec_in_bounds(&self, x: int, y: int) -> bool {
        0 <= x < self.spec_width() && 0 <= y < self.spec_height()
    }

    /// The tile at `(x, y)`.
    pub open spec fn spec_tile(&self, x: int, y: int) -> Tile
        recommends
            self.spec_in_bounds(x, y),
    {
        self@[x][y]
    }

    /// Whether `(x, y)` lies on the outermost ring of cells.
    pub open spec fn on_border(&self, x: int, y: int) -> bool {
        x == 0 || y == 0 || x == self.spec_width() - 1 || y == self.spec_height() - 1
    }

    /// Whether the outermost ring of cells is blocked all the way round, so
    /// that nothing that walks can leave the grid.
    pub open spec fn enclosed(&self) -> bool {
        forall|x: int, y: int| #![trigger self.spec_tile(x, y)]
            self.spec_in_bounds(x, y) && self.on_border(x, y) ==> self.spec_tile(x, y).blocked
    }

    /// A grid of the given size, filled with walls. A grid without columns
    /// has no rows either.
    pub fn new(width: i32, height: i32) -> (g: Grid)
        requires
            0 <= width,
            0 <= height,
        ensures
            g.wf(),
            g.spec_width() == width,
            width > 0 ==> g.spec_height() == height,
            forall|x: int, y: int| #![trigger g.spec_tile(x, y)]
                g.spec_in_bounds(x, y) ==> g.spec_tile(x, y) == Tile::wall(),
    {
        let mut tiles: Vec<Vec<Tile>> = Vec::new();
        let mut x: i32 = 0;
        while x < width
            invariant
                0 <= x <= width,
                0 <= height,
                tiles@.len() == x,
                forall|i: int| 0 <= i < x ==> (#[trigger] tiles@[i])@.len() == height,
                forall|i: int, j: int| #![trigger tiles@[i]@[j]]
                    0 <= i < x && 0 <= j < height ==> tiles@[i]@[j] == Tile::wall(),
            decreases width - x,
        {
            let mut column: Vec<Tile> = Vec::new();
            let mut y: i32 = 0;
            while y < height
                invariant
                    0 <= y <= height,
                    column@.len() == y,
                    forall|j: int| 0 <= j < y ==> #[trigger] column@[j] == Tile::wall(),
                decreases height - y,
            {
                column.push(Tile::wall());
                y = y + 1;
            }
            tiles.push(column);
            x = x + 1;
        }
        Grid { tiles }
    }

    /// The number of columns.
    pub fn width(&self) -> (w: i32)
        requires
            self.wf(),
        ensures
            w == self.spec_width(),
    {
        self.tiles.len() as i32
    }

    /// The number of rows.
    pub fn height(&self) -> (h: i32)
        requires
            self.wf(),
        ensures
            h == self.spec_height(),
    {
        if self.tiles.len() > 0 {
            self.tiles[0].len() as i32
        } else {
            0
        }
    }

    /// Whether `(x, y)` names a cell of the grid.
    pub fn in_bounds(&self, x: i32, y: i32) -> (b: bool)
        requires
            self.wf(),
        ensures
            b == self.spec_in_bounds(x as int, y as int),
    {
        0 <= x && x < self.width() && 0 <= y && y < self.height()
    }

    /// The tile at `(x, y)`.
    pub fn tile(&self, x: i32, y: i32) -> (t: Tile)
        requires
            self.wf(),
            self.spec_in_bounds(x as int, y as int),
        ensures
            t == self.spec_tile(x as int, y as int),
    {
        assert(self@[x as int].len() == self.spec_height());
        self.tiles[x as usize][y as usize]
    }

    /// Replaces the tile at `(x, y)`; every other tile stays as it was.
    pub fn set_tile(&mut self, x: i32, y: i32, tile: Tile)
        requires
            old(self).wf(),
            old(self).spec_in_bounds(x as int, y as int),
        ensures
            final(self).wf(),
            final(self).spec_width() == old(self).spec_width(),
            final(self).spec_height() == old(self).spec_height(),
            final(self)@ == old(self)@.update(x as int, old(self)@[x as int].update(y as int, tile)),
            forall|i: int, j: int| #![trigger final(self).spec_tile(i, j)]
                old(self).spec_in_bounds(i, j) && !(i == x && j == y) ==> final(self).spec_tile(i, j)
                    == old(self).spec_tile(i, j),
            final(self).spec_tile(x as int, y as int) == tile,
    {
        assert(self@[x as int].len() == self.spec_height());
        self.tiles[x as usize][y as usize] = tile;
        assert(self@ =~= old(self)@.update(x as int, old(self)@[x as int].update(y as int, tile)));
    }

    /// Whether the outermost ring of cells is blocked all the way round.
    pub fn is_enclosed(&self) -> (b: bool)
        requires
            self.wf(),
        ensures
            b == self.enclosed(),
    {
        let width = self.width();
        let height = self.height();
        let mut x: i32 = 0;
        while x < width
            invariant
                0 <= x <= width,
                self.wf(),
                width == self.spec_width(),
                height == self.spec_height(),
                forall|i: int, j: int| #![trigger self.spec_tile(i, j)]
                    0 <= i < x && 0 <= j < height && self.on_border(i, j) ==> self.spec_tile(
                        i,
                        j,
                    ).blocked,
            decreases width - x,
        {
            let mut y: i32 = 0;
            while y < height
                invariant
                    0 <= x < width,
                    0 <= y <= height,
                    self.wf(),
                    width == self.spec_width(),
                    height == self.spec_height(),
                    forall|i: int, j: int| #![trigger self.spec_tile(i, j)]
                        0 <= i < width && 0 <= j < height && (i < x || (i == x && j < y))
                            && self.on_border(i, j) ==> self.spec_tile(i, j).blocked,
                decreases height - y,
            {
                let border = x == 0 || y == 0 || x == width - 1 || y == height - 1;
                if border && !self.tile(x, y).blocked {
                    return false;
                }
                y = y + 1;
            }
            x = x + 1;
        }
        true
    }
}

} // verus!
