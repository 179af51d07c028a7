use vstd::prelude::*;
use crate::grid::{cell_index, cols, rows, world_fits, Maze, MAX_WORLD, UNIT};
use crate::palette::Tint;
use crate::player::Player;
use crate::projector::MAX_SCREEN;
use crate::sprite::Enemy;

verus! {

/// Side of a minimap cell, in pixels.
pub const MINIMAP_CELL: i64 = 4;

/// Gap between the minimap and the top and right edges of the screen.
pub const MINIMAP_MARGIN: i64 = 10;

/// A filled square of the minimap: `size × size` pixels from `(x, y)`.
/// It may reach past the screen's edges; the pixel surface drops those pixels.
#[derive(Clone, Copy, Debug, PartialEq, Eq, Structural)]
pub struct Square {
    pub x: i64,
    pub y: i64,
    pub size: i64,
    pub tint: Tint,
}

/// The minimap colour of a cell code; empty floor is not drawn.
pub open spec fn minimap_tint(c: char) -> Option<Tint> {
    if c == ' ' {
        None
    } else if c == '-' || c == '|' {
        Some(Tint::DarkGray)
    } else if c == '+' {
        Some(Tint::Brown)
    } else if c == 's' || c == 'S' {
        Some(Tint::Green)
    } else if c == 'g' || c == 'G' {
        Some(Tint::Yellow)
    } else {
        Some(Tint::DarkBlue)
    }
}

/// Picks the minimap colour of a cell code.
pub fn cell_tint(c: char) -> (r: Option<Tint>)
    ensures
        r == minimap_tint(c),
{
    if c == ' ' {
        None
    } else if c == '-' || c == '|' {
        Some(Tint::DarkGray)
    } else if c == '+' {
        Some(Tint::Brown)
    } else if c == 's' || c == 'S' {
        Some(Tint::Green)
    } else if c == 'g' || c == 'G' {
        Some(Tint::Yellow)
    } else {
        Some(Tint::DarkBlue)
    }
}

/// The left edge of the minimap: it sits in the upper-right corner.
pub open spec fn origin_x(m: Seq<Vec<char>>, fb_width: int) -> int {
    fb_width - cols(m) * MINIMAP_CELL - MINIMAP_MARGIN
}

/// The square of cell `(j, i)`, if the cell is drawn.
pub open spec fn cell_square(m: Seq<Vec<char>>, fb_width: int, j: int, i: int) -> Seq<Square> {
    match minimap_tint(m[j]@[i]) {
        None => seq![],
        Some(t) => seq![
            Square {
                x: (origin_x(m, fb_width) + i * MINIMAP_CELL) as i64,
                y: (MINIMAP_MARGIN + j * MINIMAP_CELL) as i64,
                size: MINIMAP_CELL,
                tint: t,
            },
        ],
    }
}

/// The squares of cells `[0, i)` of row `j`.
pub open spec fn row_squares(m: Seq<Vec<char>>, fb_width: int, j: int, i: int) -> Seq<Square>
    decreases i,
{
    if i <= 0 {
        seq![]
    } else {
        row_squares(m, fb_width, j, i - 1) + cell_square(m, fb_width, j, i - 1)
    }
}

/// The squares of rows `[0, j)`, row by row.
pub open spec fn grid_squares(m: Seq<Vec<char>>, fb_width: int, j: int) -> Seq<Square>
    decreases j,
{
    if j <= 0 {
        seq![]
    } else {
        grid_squares(m, fb_width, j - 1) + row_squares(m, fb_width, j - 1, cols(m))
    }
}

/// The marker of a position: the square of its cell, none off the grid.
pub open spec fn marker(m: Seq<Vec<char>>, fb_width: int, block_size: int, x: i64, y: i64, t: Tint) -> Seq<Square> {
    match cell_index(m, crate::grid::Point { x, y }, block_size) {
        None => seq![],
        Some((j, i)) => seq![
            Square {
                x: (origin_x(m, fb_width) + i * MINIMAP_CELL) as i64,
                y: (MINIMAP_MARGIN + j * MINIMAP_CELL) as i64,
                size: MINIMAP_CELL,
                tint: t,
            },
        ],
    }
}

/// The markers of enemies `[0, n)`.
pub open spec fn enemy_markers(m: Seq<Vec<char>>, fb_width: int, block_size: int, enemies: Seq<Enemy>, n: int) -> Seq<Square>
    decreases n,
{
    if n <= 0 {
        seq![]
    } else {
        enemy_markers(m, fb_width, block_size, enemies, n - 1) + marker(
            m,
            fb_width,
            block_size,
            enemies[n - 1].pos.x,
            enemies[n - 1].pos.y,
            Tint::Orange,
        )
    }
}

/// Everything the minimap draws, in order: the cells row by row, the player's
/// marker, then each enemy's.
pub open spec fn minimap(m: Seq<Vec<char>>, fb_width: int, block_size: int, player: Player, enemies: Seq<Enemy>) -> Seq<Square> {
    grid_squares(m, fb_width, rows(m)) + marker(m, fb_width, block_size, player.pos.x, player.pos.y, Tint::SkyBlue)
        + enemy_markers(m, fb_width, block_size, enemies, enemies.len() as int)
}

/// Computes the marker square of one position.
fn marker_square(maze: &Maze, fb_width: u32, block_size: usize, x: i64, y: i64, t: Tint) -> (r: Option<Square>)
    requires
        world_fits(maze@, block_size as int),
        fb_width <= MAX_SCREEN,
    ensures
        marker(maze@, fb_width as int, block_size as int, x, y, t) == match r {
            None => Seq::<Square>::empty(),
            Some(s) => seq![s],
        },
{
    let ghost m = maze@;
    let nrows = maze.len();
    let ncols = maze[0].len();
    proof {
        crate::grid::lemma_world_dims(maze@, block_size as int);
    }
    if x < 0 || y < 0 {
        return None;
    }
    let bs = block_size as i64;
    let i = (x / UNIT) / bs;
    let j = (y / UNIT) / bs;
    if j >= nrows as i64 || i >= ncols as i64 {
        return None;
    }
    let ox = fb_width as i64 - (ncols as i64) * MINIMAP_CELL - MINIMAP_MARGIN;
    Some(Square { x: ox + i * MINIMAP_CELL, y: MINIMAP_MARGIN + j * MINIMAP_CELL, size: MINIMAP_CELL, tint: t })
}

/// Draws the minimap for a screen `fb_width` pixels wide: a square per
/// non-empty cell in row-major order, then the player's and the enemies'
/// markers.
pub fn render_minimap(maze: &Maze, block_size: usize, player: &Player, enemies: &Vec<Enemy>, fb_width: u32) -> (r: Vec<Square>)
    requires
        world_fits(maze@, block_size as int),
        fb_width <= MAX_SCREEN,
    ensures
        r@ == minimap(maze@, fb_width as int, block_size as int, *player, enemies@),
{
    let ghost m = maze@;
    let nrows = maze.len();
    let ncols = maze[0].len();
    proof {
        crate::grid::lemma_world_dims(maze@, block_size as int);
    }
    let ox = fb_width as i64 - (ncols as i64) * MINIMAP_CELL - MINIMAP_MARGIN;
    let mut out: Vec<Square> = Vec::new();
    let mut j: usize = 0;
    while j < nrows
        invariant
            m == maze@,
            world_fits(m, block_size as int),
            nrows == rows(m),
            ncols == cols(m),
            nrows <= MAX_WORLD,
            ncols <= MAX_WORLD,
            ox == origin_x(m, fb_width as int),
            j <= nrows,
            out@ == grid_squares(m, fb_width as int, j as int),
        decreases nrows - j,
    {
        let row = &maze[j];
        assert(row@.len() == ncols);
        let mut i: usize = 0;
        let ghost before = out@;
        assert(out@ =~= before + row_squares(m, fb_width as int, j as int, 0));
        while i < ncols
            invariant
                m == maze@,
                world_fits(m, block_size as int),
                nrows == rows(m),
                ncols == cols(m),
                nrows <= MAX_WORLD,
                ncols <= MAX_WORLD,
                ox == origin_x(m, fb_width as int),
                j < nrows,
                *row == m[j as int],
                row@.len() == ncols,
                i <= ncols,
                before == grid_squares(m, fb_width as int, j as int),
                out@ == before + row_squares(m, fb_width as int, j as int, i as int),
            decreases ncols - i,
        {
            let ghost prev = out@;
            match cell_tint(row[i]) {
                None => {},
                Some(t) => {
                    out.push(
                        Square {
                            x: ox + (i as i64) * MINIMAP_CELL,
                            y: MINIMAP_MARGIN + (j as i64) * MINIMAP_CELL,
                            size: MINIMAP_CELL,
                            tint: t,
                        },
                    );
                },
            }
            proof {
                assert(prev + cell_square(m, fb_width as int, j as int, i as int) =~= out@);
                assert(before + row_squares(m, fb_width as int, j as int, i + 1) =~= out@);
            }
            i = i + 1;
        }
        j = j + 1;
    }
    let ghost cells = out@;
    match marker_square(maze, fb_width, block_size, player.pos.x, player.pos.y, Tint::SkyBlue) {
        None => {},
        Some(s) => {
            out.push(s);
        },
    }
    let ghost with_player = out@;
    assert(with_player =~= cells + marker(m, fb_width as int, block_size as int, player.pos.x, player.pos.y, Tint::SkyBlue));
    let mut k: usize = 0;
    assert(out@ =~= with_player + enemy_markers(m, fb_width as int, block_size as int, enemies@, 0));
    while k < enemies.len()
        invariant
            m == maze@,
            world_fits(m, block_size as int),
            fb_width <= MAX_SCREEN,
            k <= enemies.len(),
            out@ == with_player + enemy_markers(m, fb_width as int, block_size as int, enemies@, k as int),
        decreases enemies.len() - k,
    {
        let e = enemies[k];
        let ghost prev = out@;
        match marker_square(maze, fb_width, block_size, e.pos.x, e.pos.y, Tint::Orange) {
            None => {},
            Some(s) => {
                out.push(s);
            },
        }
        assert(with_player + enemy_markers(m, fb_width as int, block_size as int, enemies@, k + 1) =~= out@);
        k = k + 1;
    }
    out
}

} // verus!
