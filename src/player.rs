use vstd::prelude::*;
use crate::angles::MAX_HEADING;
use crate::grid::{cell_code, cell_of, classify, world_fits, Cell, Dir, Maze, Point, MAX_WORLD, UNIT};

verus! {

/// How far one key press turns the player: π/50, in microradians.
pub const ROTATION_SPEED: i64 = 62_832;

/// How far one pixel of horizontal mouse travel turns the player, in
/// microradians.
pub const MOUSE_SENSITIVITY: i64 = 3_000;

/// The largest mouse travel taken in one frame, in pixels.
pub const MAX_MOUSE_DX: i64 = 1_000_000;

/// The observer: a position, a heading and a field of view, both angles in
/// microradians, and the hit points left.
#[derive(Clone, Copy, Debug, PartialEq, Eq, Structural)]
pub struct Player {
    pub pos: Point,
    pub a: i64,
    pub fov: i64,
    pub health: i32,
}

/// The movement keys held this frame.
#[derive(Clone, Copy, Debug, PartialEq, Eq, Structural)]
pub struct MoveKeys {
    pub forward: bool,
    pub backward: bool,
    pub right: bool,
    pub left: bool,
}

/// The player may stand on empty floor, on a goal and on the start cell.
pub open spec fn walkable(m: Seq<Vec<char>>, x: i64, y: i64, block_size: int) -> bool {
    match cell_code(m, Point { x, y }, block_size) {
        None => false,
        Some(c) => cell_of(c) == Cell::Empty || cell_of(c) == Cell::Goal || cell_of(c) == Cell::Start,
    }
}

/// Whether the player may step onto a position.
pub fn can_walk_to(maze: &Maze, x: i64, y: i64, block_size: usize) -> (r: bool)
    requires
        world_fits(maze@, block_size as int),
    ensures
        r == walkable(maze@, x, y, block_size as int),
{
    proof {
        crate::grid::lemma_world_dims(maze@, block_size as int);
    }
    match crate::grid::cell_at(maze, Point { x, y }, block_size as i64) {
        None => false,
        Some(c) => match classify(c) {
            Cell::Empty | Cell::Goal | Cell::Start => true,
            Cell::Wall(_) => false,
        },
    }
}

/// A direction component times the move speed, a 25th of a cell per frame,
/// in sub-units, truncated toward zero: `v / DIR_ONE * block_size / 25` world
/// units are `v * block_size * 2 / 5` sub-units.
pub open spec fn move_step(v: int, block_size: int) -> int {
    if v >= 0 {
        v * block_size * 2 / 5
    } else {
        -((-v) * block_size * 2 / 5)
    }
}

fn step_of(v: i64, block_size: usize) -> (r: i64)
    requires
        -10_000 <= v <= 10_000,
        1 <= block_size <= MAX_WORLD,
    ensures
        r == move_step(v as int, block_size as int),
        -40_000_000 <= r <= 40_000_000,
{
    let bs = block_size as i64;
    proof {
        assert(0 <= (if v >= 0 { v as int } else { -v }) * bs * 2 <= 200_000_000) by (nonlinear_arith)
            requires
                -10_000 <= v <= 10_000,
                1 <= bs <= 10_000,
        ;
    }
    if v >= 0 {
        v * bs * 2 / 5
    } else {
        -((-v) * bs * 2 / 5)
    }
}

/// One attempted move by `(mx, my)`: the horizontal part is taken if it lands
/// on walkable ground, then the vertical part from wherever that left the
/// player, likewise.
pub open spec fn slide(m: Seq<Vec<char>>, p: Point, mx: int, my: int, block_size: int) -> Point {
    let across = if walkable(m, (p.x + mx) as i64, p.y, block_size) {
        Point { x: (p.x + mx) as i64, y: p.y }
    } else {
        p
    };
    if walkable(m, across.x, (across.y + my) as i64, block_size) {
        Point { x: across.x, y: (across.y + my) as i64 }
    } else {
        across
    }
}

/// Where the held keys take the player along heading `dir`: forward, back,
/// right, then left, each as one `slide`.
pub open spec fn moved(m: Seq<Vec<char>>, p: Point, keys: MoveKeys, dir: Dir, block_size: int) -> Point {
    let sx = move_step(dir.c as int, block_size);
    let sy = move_step(dir.s as int, block_size);
    let ahead = if keys.forward {
        slide(m, p, sx, sy, block_size)
    } else {
        p
    };
    let back = if keys.backward {
        slide(m, ahead, -sx, -sy, block_size)
    } else {
        ahead
    };
    let rightward = if keys.right {
        slide(m, back, -sy, sx, block_size)
    } else {
        back
    };
    if keys.left {
        slide(m, rightward, sy, -sx, block_size)
    } else {
        rightward
    }
}

/// The heading after turning: a step left or right for each arrow key held,
/// and the mouse travel times the sensitivity.
pub open spec fn turned(a: int, left: bool, right: bool, mouse_dx: int) -> int {
    a - (if left {
        ROTATION_SPEED as int
    } else {
        0
    }) + (if right {
        ROTATION_SPEED as int
    } else {
        0
    }) + mouse_dx * MOUSE_SENSITIVITY
}

impl Player {
    /// Turns the player by the arrow keys held and the mouse's horizontal
    /// travel.
    pub fn turn(&mut self, left: bool, right: bool, mouse_dx: i64)
        requires
            -MAX_HEADING + 4_000_000_000 <= old(self).a <= MAX_HEADING - 4_000_000_000,
            -MAX_MOUSE_DX <= mouse_dx <= MAX_MOUSE_DX,
        ensures
            final(self).a == turned(old(self).a as int, left, right, mouse_dx as int),
            final(self).pos == old(self).pos,
            final(self).fov == old(self).fov,
            final(self).health == old(self).health,
    {
        if left {
            self.a = self.a - ROTATION_SPEED;
        }
        if right {
            self.a = self.a + ROTATION_SPEED;
        }
        self.a = self.a + mouse_dx * MOUSE_SENSITIVITY;
    }

    fn slide_by(&mut self, maze: &Maze, mx: i64, my: i64, block_size: usize)
        requires
            world_fits(maze@, block_size as int),
            old(self).pos.valid(),
            -40_000_000 <= mx <= 40_000_000,
            -40_000_000 <= my <= 40_000_000,
        ensures
            final(self).pos == slide(maze@, old(self).pos, mx as int, my as int, block_size as int),
            final(self).pos.valid(),
            final(self).a == old(self).a,
            final(self).fov == old(self).fov,
            final(self).health == old(self).health,
    {
        proof {
            crate::grid::lemma_world_dims(maze@, block_size as int);
        }
        let next_x = self.pos.x + mx;
        if can_walk_to(maze, next_x, self.pos.y, block_size) {
            proof {
                lemma_walkable_valid(maze@, next_x, self.pos.y, block_size as int);
            }
            self.pos.x = next_x;
        }
        let next_y = self.pos.y + my;
        if can_walk_to(maze, self.pos.x, next_y, block_size) {
            proof {
                lemma_walkable_valid(maze@, self.pos.x, next_y, block_size as int);
            }
            self.pos.y = next_y;
        }
    }

    /// Moves the player by the keys held, along heading `dir` (the cosine and
    /// sine of the heading), never onto a wall or off the grid.
    pub fn process_events(&mut self, keys: &MoveKeys, dir: Dir, maze: &Maze, block_size: usize)
        requires
            world_fits(maze@, block_size as int),
            old(self).pos.valid(),
            dir.valid(),
        ensures
            final(self).pos == moved(maze@, old(self).pos, *keys, dir, block_size as int),
            final(self).pos.valid(),
            final(self).a == old(self).a,
            final(self).fov == old(self).fov,
            final(self).health == old(self).health,
    {
        proof {
            crate::grid::lemma_world_dims(maze@, block_size as int);
        }
        let sx = step_of(dir.c, block_size);
        let sy = step_of(dir.s, block_size);
        if keys.forward {
            self.slide_by(maze, sx, sy, block_size);
        }
        if keys.backward {
            self.slide_by(maze, -sx, -sy, block_size);
        }
        if keys.right {
            self.slide_by(maze, -sy, sx, block_size);
        }
        if keys.left {
            self.slide_by(maze, sy, -sx, block_size);
        }
    }
}

/// Walkable ground lies inside the world.
pub proof fn lemma_walkable_valid(m: Seq<Vec<char>>, x: i64, y: i64, block_size: int)
    requires
        world_fits(m, block_size),
        walkable(m, x, y, block_size),
    ensures
        (Point { x, y }).valid(),
{
    crate::grid::lemma_world_dims(m, block_size);
    let i = (x / UNIT) / block_size;
    let j = (y / UNIT) / block_size;
    assert(x < (i + 1) * block_size * UNIT) by {
        vstd::arithmetic::div_mod::lemma_fundamental_div_mod(x as int, UNIT as int);
        vstd::arithmetic::div_mod::lemma_fundamental_div_mod(x as int / UNIT as int, block_size);
        assert(x < (i + 1) * block_size * UNIT) by (nonlinear_arith)
            requires
                x == UNIT * (x / UNIT) + x % UNIT,
                0 <= x % UNIT < UNIT,
                x / UNIT == block_size * i + (x / UNIT) % block_size,
                0 <= (x / UNIT) % block_size < block_size,
        ;
    }
    assert(y < (j + 1) * block_size * UNIT) by {
        vstd::arithmetic::div_mod::lemma_fundamental_div_mod(y as int, UNIT as int);
        vstd::arithmetic::div_mod::lemma_fundamental_div_mod(y as int / UNIT as int, block_size);
        assert(y < (j + 1) * block_size * UNIT) by (nonlinear_arith)
            requires
                y == UNIT * (y / UNIT) + y % UNIT,
                0 <= y % UNIT < UNIT,
                y / UNIT == block_size * j + (y / UNIT) % block_size,
                0 <= (y / UNIT) % block_size < block_size,
        ;
    }
    assert((i + 1) * block_size * UNIT <= MAX_WORLD * UNIT) by (nonlinear_arith)
        requires
            i + 1 <= crate::grid::cols(m),
            crate::grid::cols(m) * block_size <= MAX_WORLD,
            block_size >= 1,
    ;
    assert((j + 1) * block_size * UNIT <= MAX_WORLD * UNIT) by (nonlinear_arith)
        requires
            j + 1 <= crate::grid::rows(m),
            crate::grid::rows(m) * block_size <= MAX_WORLD,
            block_size >= 1,
    ;
}

} // verus!
