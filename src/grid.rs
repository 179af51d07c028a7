use vstd::prelude::*;

verus! {

/// Sub-units per world unit: positions are stored as `i64` sub-units.
pub const UNIT: i64 = 100_000;

/// The fixed-point scale of a direction component: `DIR_ONE` stands for 1.0.
pub const DIR_ONE: i64 = 10_000;

/// The largest extent of the world, in world units, along either axis.
pub const MAX_WORLD: i64 = 10_000;

/// A maze: rows of single-character cell codes.
pub type Maze = Vec<Vec<char>>;

/// What a cell code stands for.
#[derive(Clone, Copy, Debug, PartialEq, Eq, Structural)]
pub enum Cell {
    /// `' '`: empty floor.
    Empty,
    /// `'g'` or `'G'`: the level's goal, walkable.
    Goal,
    /// `'s'` or `'S'`: the start marker.
    Start,
    /// Any other code: a wall of that variant.
    Wall(char),
}

pub open spec fn cell_of(c: char) -> Cell {
    if c == ' ' {
        Cell::Empty
    } else if c == 'g' || c == 'G' {
        Cell::Goal
    } else if c == 's' || c == 'S' {
        Cell::Start
    } else {
        Cell::Wall(c)
    }
}

/// Classifies a cell code.
pub fn classify(c: char) -> (r: Cell)
    ensures
        r == cell_of(c),
{
    if c == ' ' {
        Cell::Empty
    } else if c == 'g' || c == 'G' {
        Cell::Goal
    } else if c == 's' || c == 'S' {
        Cell::Start
    } else {
        Cell::Wall(c)
    }
}

/// A rectangular maze: at least one row, at least one column, all rows of
/// equal length.
pub open spec fn maze_ok(m: Seq<Vec<char>>) -> bool {
    &&& m.len() >= 1
    &&& m[0]@.len() >= 1
    &&& forall|j: int| 0 <= j < m.len() ==> (#[trigger] m[j])@.len() == m[0]@.len()
}

pub open spec fn rows(m: Seq<Vec<char>>) -> int {
    m.len() as int
}

pub open spec fn cols(m: Seq<Vec<char>>) -> int {
    m[0]@.len() as int
}

/// The maze fits the fixed-point world: its extent in world units,
/// `cells * block_size`, is at most `MAX_WORLD` along both axes.
pub open spec fn world_fits(m: Seq<Vec<char>>, block_size: int) -> bool {
    &&& maze_ok(m)
    &&& block_size >= 1
    &&& cols(m) * block_size <= MAX_WORLD
    &&& rows(m) * block_size <= MAX_WORLD
}

/// A world position, in sub-units.
#[derive(Clone, Copy, Debug, PartialEq, Eq, Structural)]
pub struct Point {
    pub x: i64,
    pub y: i64,
}

impl Point {
    /// Inside the quadrant the world lives in, within `MAX_WORLD` units.
    pub open spec fn valid(self) -> bool {
        0 <= self.x <= MAX_WORLD * UNIT && 0 <= self.y <= MAX_WORLD * UNIT
    }
}

/// A direction vector `(cos, sin)`, each component scaled by `DIR_ONE`.
#[derive(Clone, Copy, Debug, PartialEq, Eq, Structural)]
pub struct Dir {
    pub c: i64,
    pub s: i64,
}

impl Dir {
    pub open spec fn valid(self) -> bool {
        -DIR_ONE <= self.c <= DIR_ONE && -DIR_ONE <= self.s <= DIR_ONE
    }
}

/// The grid cell `(row, column)` that a position lies in: world units are the
/// sub-units divided down, and the cell is the world unit divided by the cell
/// size, both truncated; `None` outside the grid.
pub open spec fn cell_index(m: Seq<Vec<char>>, p: Point, block_size: int) -> Option<(int, int)> {
    let i = (p.x / UNIT) / block_size;
    let j = (p.y / UNIT) / block_size;
    if p.x < 0 || p.y < 0 || j >= rows(m) || i >= cols(m) {
        None
    } else {
        Some((j, i))
    }
}

/// The code of the cell a position lies in, `None` outside the grid.
pub open spec fn cell_code(m: Seq<Vec<char>>, p: Point, block_size: int) -> Option<char> {
    match cell_index(m, p, block_size) {
        Some((j, i)) => Some(m[j]@[i]),
        None => None,
    }
}

/// A nonnegative factor of a bounded product with a positive cofactor is
/// bounded by the product's bound.
pub proof fn lemma_factor_bound(a: int, b: int, c: int)
    requires
        a >= 0,
        b >= 1,
        a * b <= c,
    ensures
        a <= c,
{
    assert(a <= a * b) by (nonlinear_arith)
        requires
            a >= 0,
            b >= 1,
    ;
}

/// The dimensions of a maze that fits the world are each at most `MAX_WORLD`.
pub proof fn lemma_world_dims(m: Seq<Vec<char>>, block_size: int)
    requires
        world_fits(m, block_size),
    ensures
        1 <= rows(m) <= MAX_WORLD,
        1 <= cols(m) <= MAX_WORLD,
        1 <= block_size <= MAX_WORLD,
{
    lemma_factor_bound(rows(m), block_size, MAX_WORLD as int);
    lemma_factor_bound(cols(m), block_size, MAX_WORLD as int);
    assert(block_size * cols(m) == cols(m) * block_size) by (nonlinear_arith);
    lemma_factor_bound(block_size, cols(m), MAX_WORLD as int);
}

/// Looks up the cell code under a world position.
pub fn cell_at(maze: &Maze, p: Point, block_size: i64) -> (r: Option<char>)
    requires
        world_fits(maze@, block_size as int),
    ensures
        r == cell_code(maze@, p, block_size as int),
{
    if p.x < 0 || p.y < 0 {
        return None;
    }
    let i = (p.x / UNIT) / block_size;
    let j = (p.y / UNIT) / block_size;
    let nrows = maze.len();
    let ncols = maze[0].len();
    proof {
        lemma_world_dims(maze@, block_size as int);
    }
    if j >= nrows as i64 || i >= ncols as i64 {
        return None;
    }
    proof {
        assert(maze@[j as int]@.len() == ncols);
    }
    Some(maze[j as usize][i as usize])
}

} // verus!
