//! Grid model: cell kinds, coordinates, and the rectangular cell container
//! with lookup and mutation by coordinate.

use vstd::prelude::*;

verus! {

/// The kind occupying one cell. Exactly one kind occupies a cell at any time;
/// "crate sitting on the goal" is represented as `Crate` at the goal
/// coordinate, with the goal coordinate remembered in board-level state.
#[derive(Clone, Copy, PartialEq, Eq, Structural, Debug)]
pub enum CellType {
    Wall,
    Floor,
    Crate,
    Player,
    Goal,
}

/// A cell of the grid.
#[derive(Clone, Copy, PartialEq, Eq, Structural, Debug)]
pub struct Cell {
    pub cell_type: CellType,
}

impl Cell {
    pub fn new(cell_type: CellType) -> (c: Cell)
        ensures
            c.cell_type == cell_type,
    {
        Cell { cell_type }
    }
}

/// An (x, y) pair identifying a cell: `x` is the column, `y` the row.
/// Equality is structural.
#[derive(Clone, Copy, PartialEq, Eq, Structural, Debug)]
pub struct Pos {
    pub x: usize,
    pub y: usize,
}

impl Pos {
    pub fn from(x: usize, y: usize) -> (p: Pos)
        ensures
            p.x == x && p.y == y,
    {
        Pos { x, y }
    }
}

/// The glyph that renders a cell kind.
pub open spec fn spec_glyph_of(k: CellType) -> char {
    match k {
        CellType::Wall => '#',
        CellType::Floor => ' ',
        CellType::Crate => 'C',
        CellType::Player => 'P',
        CellType::Goal => 'G',
    }
}

/// Whether a glyph belongs to the level alphabet.
pub open spec fn legal_glyph(c: char) -> bool {
    c == '#' || c == ' ' || c == 'C' || c == 'P' || c == 'G'
}

/// The cell kind a legal glyph denotes (meaningful only on legal glyphs).
pub open spec fn spec_kind_of(c: char) -> CellType {
    if c == '#' {
        CellType::Wall
    } else if c == ' ' {
        CellType::Floor
    } else if c == 'C' {
        CellType::Crate
    } else if c == 'P' {
        CellType::Player
    } else {
        CellType::Goal
    }
}

impl CellType {
    /// The glyph that renders this kind.
    pub fn glyph(&self) -> (c: char)
        ensures
            c == spec_glyph_of(*self),
    {
        match self {
            CellType::Wall => '#',
            CellType::Floor => ' ',
            CellType::Crate => 'C',
            CellType::Player => 'P',
            CellType::Goal => 'G',
        }
    }
}

/// Whether `p` indexes a cell of `grid` (per-row width: rows are checked
/// against their own length).
pub open spec fn in_bounds(grid: Seq<Seq<CellType>>, p: Pos) -> bool {
    p.y < grid.len() && p.x < grid[p.y as int].len()
}

/// The kind at `p`.
pub open spec fn kind_at(grid: Seq<Seq<CellType>>, p: Pos) -> CellType {
    grid[p.y as int][p.x as int]
}

/// `grid` with the cell at `q` replaced by `k`.
pub open spec fn place(grid: Seq<Seq<CellType>>, q: Pos, k: CellType) -> Seq<Seq<CellType>> {
    grid.update(q.y as int, grid[q.y as int].update(q.x as int, k))
}

/// How `place` reads back: dimensions are kept, the cell at `q` becomes `k`,
/// and every other cell is untouched.
pub proof fn lemma_place(grid: Seq<Seq<CellType>>, q: Pos, k: CellType)
    requires
        in_bounds(grid, q),
    ensures
        place(grid, q, k).len() == grid.len(),
        forall|r: int| 0 <= r < grid.len() ==> #[trigger] place(grid, q, k)[r].len() == grid[r].len(),
        forall|p: Pos|
            in_bounds(grid, p) ==> #[trigger] kind_at(place(grid, q, k), p) == (if p == q {
                k
            } else {
                kind_at(grid, p)
            }),
        forall|p: Pos| #[trigger] in_bounds(place(grid, q, k), p) <==> in_bounds(grid, p),
{
    let g2 = place(grid, q, k);
    assert forall|r: int| 0 <= r < grid.len() implies #[trigger] g2[r].len() == grid[r].len() by {
        if r == q.y as int {
            assert(g2[r] == grid[q.y as int].update(q.x as int, k));
        }
    }
    assert forall|p: Pos| in_bounds(grid, p) implies #[trigger] kind_at(g2, p) == (if p == q {
        k
    } else {
        kind_at(grid, p)
    }) by {
        if p.y == q.y {
            assert(g2[p.y as int] == grid[q.y as int].update(q.x as int, k));
        }
    }
    assert forall|p: Pos| #[trigger] in_bounds(g2, p) <==> in_bounds(grid, p) by {
        if p.y < grid.len() {
            assert(g2[p.y as int].len() == grid[p.y as int].len());
        }
    }
}

/// The grid serialized as rows of glyphs, each row closed by a newline.
pub open spec fn render_row(row: Seq<CellType>) -> Seq<char> {
    row.map_values(|k: CellType| spec_glyph_of(k)).push('\n')
}

/// The whole grid serialized row by row.
pub open spec fn render_grid(grid: Seq<Seq<CellType>>) -> Seq<char>
    decreases grid.len(),
{
    if grid.len() == 0 {
        Seq::empty()
    } else {
        render_grid(grid.drop_last()) + render_row(grid.last())
    }
}

/// Every row is as long as the first: the grid is rectangular.
pub open spec fn rectangular(grid: Seq<Seq<CellType>>) -> bool {
    forall|r: int| 0 <= r < grid.len() ==> #[trigger] grid[r].len() == grid[0].len()
}

/// Both grid extents fit the machine's indices, as they do for any grid that
/// is actually held in memory. The wrap arithmetic stays exact under this
/// bound.
pub open spec fn grid_sized(grid: Seq<Seq<CellType>>) -> bool {
    &&& grid.len() <= usize::MAX
    &&& forall|r: int| 0 <= r < grid.len() ==> #[trigger] grid[r].len() <= usize::MAX
}

/// What a board looks like in specifications: the grid of kinds, the goal
/// coordinate (fixed per level) and the crate coordinate.
pub struct BoardView {
    pub grid: Seq<Seq<CellType>>,
    pub goal: Pos,
    pub crate_pos: Pos,
}

/// The cell container of one level, with the two board-level coordinates.
#[derive(Debug)]
pub struct Board {
    cells: Vec<Vec<Cell>>,
    goal_pos: Pos,
    crate_pos: Pos,
}

impl View for Board {
    type V = BoardView;

    closed spec fn view(&self) -> BoardView {
        BoardView {
            grid: self.cells@.map_values(|row: Vec<Cell>| row@.map_values(|c: Cell| c.cell_type)),
            goal: self.goal_pos,
            crate_pos: self.crate_pos,
        }
    }
}

impl Board {
    /// Assembles a board from its parts. Intended for the level loader; a
    /// board built by hand carries no well-formedness of its own.
    pub fn assemble(cells: Vec<Vec<Cell>>, goal_pos: Pos, crate_pos: Pos) -> (b: Board)
        ensures
            b@.grid.len() == cells@.len(),
            forall|r: int|
                0 <= r < cells@.len() ==> #[trigger] b@.grid[r].len() == cells@[r]@.len(),
            forall|r: int, c: int|
                0 <= r < cells@.len() && 0 <= c < cells@[r]@.len() ==> #[trigger] b@.grid[r][c]
                    == cells@[r]@[c].cell_type,
            b@.goal == goal_pos,
            b@.crate_pos == crate_pos,
    {
        let b = Board { cells, goal_pos, crate_pos };
        proof {
            assert forall|r: int| 0 <= r < b.cells@.len() implies #[trigger] b@.grid[r].len()
                == b.cells@[r]@.len() && forall|c: int|
                0 <= c < b.cells@[r]@.len() ==> #[trigger] b@.grid[r][c]
                    == b.cells@[r]@[c].cell_type by {
                assert(b@.grid[r] == b.cells@[r]@.map_values(|c: Cell| c.cell_type));
            }
        }
        b
    }

    /// A board is held in vectors, so its view's extents fit the machine's
    /// indices.
    pub proof fn lemma_view_sized(&self)
        ensures
            grid_sized(self@.grid),
    {
        assert(self@.grid.len() == self.cells@.len());
        assert(self.cells@.len() <= usize::MAX) by {
            assert(vstd::std_specs::vec::spec_vec_len(&self.cells) == self.cells@.len());
        }
        assert forall|r: int| 0 <= r < self@.grid.len() implies #[trigger] self@.grid[r].len()
            <= usize::MAX by {
            assert(self@.grid[r] == self.cells@[r]@.map_values(|c: Cell| c.cell_type));
            assert(vstd::std_specs::vec::spec_vec_len(&self.cells@[r]) == self.cells@[r]@.len());
        }
    }

    /// The kind at `p`. The session's invariants keep every held coordinate
    /// inside the grid, so the lookup is total here.
    pub fn cell_at(&self, p: Pos) -> (k: CellType)
        requires
            in_bounds(self@.grid, p),
        ensures
            k == kind_at(self@.grid, p),
    {
        proof {
            assert(self@.grid[p.y as int] == self.cells@[p.y as int]@.map_values(
                |c: Cell| c.cell_type,
            ));
        }
        self.cells[p.y][p.x].cell_type
    }

    /// Writes `k` at `p`, leaving every other cell and the two board-level
    /// coordinates untouched.
    pub fn set_cell(&mut self, p: Pos, k: CellType)
        requires
            in_bounds(old(self)@.grid, p),
        ensures
            final(self)@.grid == place(old(self)@.grid, p, k),
            final(self)@.goal == old(self)@.goal,
            final(self)@.crate_pos == old(self)@.crate_pos,
    {
        proof {
            assert(old(self)@.grid[p.y as int] == old(self).cells@[p.y as int]@.map_values(
                |c: Cell| c.cell_type,
            ));
        }
        self.cells[p.y][p.x] = Cell { cell_type: k };
        proof {
            let og = old(self)@.grid;
            assert(self.cells@[p.y as int]@ == old(self).cells@[p.y as int]@.update(
                p.x as int,
                Cell { cell_type: k },
            ));
            assert(self@.grid[p.y as int] =~= og[p.y as int].update(p.x as int, k));
            assert forall|r: int| 0 <= r < self.cells@.len() && r != p.y as int implies self@.grid[r]
                == og[r] by {
                assert(self@.grid[r] == self.cells@[r]@.map_values(|c: Cell| c.cell_type));
                assert(og[r] == old(self).cells@[r]@.map_values(|c: Cell| c.cell_type));
            }
            assert(self@.grid =~= place(og, p, k));
        }
    }

    /// Grid height: the number of rows.
    pub fn height(&self) -> (h: usize)
        ensures
            h == self@.grid.len(),
    {
        self.cells.len()
    }

    /// Width of row `y`: the number of cells it holds.
    pub fn row_len(&self, y: usize) -> (w: usize)
        requires
            y < self@.grid.len(),
        ensures
            w == self@.grid[y as int].len(),
    {
        proof {
            assert(self@.grid[y as int] == self.cells@[y as int]@.map_values(
                |c: Cell| c.cell_type,
            ));
        }
        self.cells[y].len()
    }

    /// The goal coordinate.
    pub fn goal_pos(&self) -> (p: Pos)
        ensures
            p == self@.goal,
    {
        self.goal_pos
    }

    /// The crate coordinate.
    pub fn crate_pos(&self) -> (p: Pos)
        ensures
            p == self@.crate_pos,
    {
        self.crate_pos
    }

    pub(crate) fn set_crate_pos(&mut self, p: Pos)
        ensures
            final(self)@.grid == old(self)@.grid,
            final(self)@.goal == old(self)@.goal,
            final(self)@.crate_pos == p,
    {
        self.crate_pos = p;
    }

    /// Serializes the grid as rows of glyphs, one newline after each row,
    /// suitable for direct or colorized display.
    pub fn render(&self) -> (out: Vec<char>)
        ensures
            out@ == render_grid(self@.grid),
    {
        let grid = &self.cells;
        let mut out: Vec<char> = Vec::new();
        let mut y: usize = 0;
        proof {
            assert(self@.grid.take(0) =~= Seq::<Seq<CellType>>::empty());
        }
        while y < grid.len()
            invariant
                y <= grid.len(),
                self@.grid.len() == grid@.len(),
                forall|r: int|
                    0 <= r < grid@.len() ==> #[trigger] self@.grid[r] == grid@[r]@.map_values(
                        |c: Cell| c.cell_type,
                    ),
                out@ == render_grid(self@.grid.take(y as int)),
            decreases grid.len() - y,
        {
            let row = &grid[y];
            let mut x: usize = 0;
            while x < row.len()
                invariant
                    x <= row@.len(),
                    y < grid@.len(),
                    self@.grid.len() == grid@.len(),
                    forall|r: int|
                        0 <= r < grid@.len() ==> #[trigger] self@.grid[r] == grid@[r]@.map_values(
                            |c: Cell| c.cell_type,
                        ),
                    row@ == grid@[y as int]@,
                    out@ == render_grid(self@.grid.take(y as int)) + self@.grid[y as int].take(
                        x as int,
                    ).map_values(|k: CellType| spec_glyph_of(k)),
                decreases row@.len() - x,
            {
                let g = row[x].cell_type.glyph();
                out.push(g);
                proof {
                    let srow = self@.grid[y as int];
                    assert(srow.take(x + 1).drop_last() =~= srow.take(x as int));
                    assert(srow.take(x + 1).map_values(|k: CellType| spec_glyph_of(k)) =~= srow.take(
                        x as int,
                    ).map_values(|k: CellType| spec_glyph_of(k)).push(g));
                }
                x = x + 1;
            }
            out.push('\n');
            proof {
                let srow = self@.grid[y as int];
                assert(srow.take(srow.len() as int) =~= srow);
                assert(self@.grid.take(y + 1).drop_last() =~= self@.grid.take(y as int));
                assert(self@.grid.take(y + 1).last() == srow);
                assert(out@ =~= render_grid(self@.grid.take(y + 1)));
            }
            y = y + 1;
        }
        proof {
            assert(self@.grid.take(grid@.len() as int) =~= self@.grid);
        }
        out
    }
}

} // verus!
