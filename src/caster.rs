use vstd::prelude::*;
use crate::grid::{cell_of, cols, rows, world_fits, Cell, Dir, Maze, DIR_ONE, UNIT};
use crate::player::Player;

verus! {

/// Texels per texture row and column.
pub const TEX_SIZE: usize = 128;

/// How far a ray travels before it gives up, in cell sizes.
pub const MAX_CELLS: i64 = 200;

/// What one ray found.
#[derive(Clone, Copy, Debug, PartialEq, Eq, Structural)]
pub struct Intersect {
    /// Distance travelled, in tenths of a world unit.
    pub distance: i64,
    /// The code of the cell that stopped the ray, `' '` when nothing did.
    pub impact: char,
    /// The texture column of the point struck, in `[0, TEX_SIZE)`.
    pub tx: usize,
}

/// A pixel of the framebuffer.
#[derive(Clone, Copy, Debug, PartialEq, Eq, Structural)]
pub struct Pixel {
    pub x: u32,
    pub y: u32,
}

/// The farthest distance a ray travels, in tenths of a world unit.
pub open spec fn max_distance(block_size: int) -> int {
    block_size * MAX_CELLS * 10
}

/// The result of a ray that found nothing.
pub open spec fn no_hit(block_size: int) -> Intersect {
    Intersect { distance: max_distance(block_size) as i64, impact: ' ', tx: 0 }
}

/// The distance of the `k`-th probe, in tenths of a unit: 0.1 then a unit
/// further at each step.
pub open spec fn step_distance(k: nat) -> int {
    1 + 10 * (k as int)
}

/// The sub-unit offset of a probe at `dist` tenths along a component `c`:
/// `dist / 10` units times `c / DIR_ONE` times `UNIT` sub-units, which is
/// exactly `dist * c`.
pub open spec fn probe_x(player: Player, dir: Dir, k: nat) -> int {
    player.pos.x + step_distance(k) * dir.c
}

pub open spec fn probe_y(player: Player, dir: Dir, k: nat) -> int {
    player.pos.y + step_distance(k) * dir.s
}

/// Rays pass through empty floor and goals, and stop at anything else.
pub open spec fn blocks_ray(c: char) -> bool {
    cell_of(c) != Cell::Empty && cell_of(c) != Cell::Goal
}

/// The texture column of a point struck at offset `(hx, hy)` inside its cell:
/// the vertical offset, unless the horizontal one lies strictly inside
/// `(1, block_size - 1)`, scaled from `[0, block_size)` to `[0, TEX_SIZE)`.
pub open spec fn tex_column(hx: int, hy: int, block_size: int) -> int {
    let m = if 1 < hx && hx < block_size - 1 {
        hx
    } else {
        hy
    };
    m * TEX_SIZE / block_size
}

/// The outcome of the `k`-th probe: `None` when the ray goes on.
pub open spec fn step_outcome(maze: Seq<Vec<char>>, player: Player, dir: Dir, block_size: int, k: nat) -> Option<Intersect> {
    let wx = probe_x(player, dir, k);
    let wy = probe_y(player, dir, k);
    if wx < 0 || wy < 0 || wx >= cols(maze) * block_size * UNIT || wy >= rows(maze) * block_size * UNIT {
        Some(no_hit(block_size))
    } else {
        let x = wx / (UNIT as int);
        let y = wy / (UNIT as int);
        let i = x / block_size;
        let j = y / block_size;
        if j >= rows(maze) || i >= cols(maze) {
            Some(no_hit(block_size))
        } else if blocks_ray(maze[j]@[i]) {
            Some(Intersect {
                distance: step_distance(k) as i64,
                impact: maze[j]@[i],
                tx: tex_column(x % block_size, y % block_size, block_size) as usize,
            })
        } else {
            None
        }
    }
}

/// The result of a ray whose probes before the `k`-th all went on.
pub open spec fn march(maze: Seq<Vec<char>>, player: Player, dir: Dir, block_size: int, k: nat) -> Intersect
    decreases max_distance(block_size) - step_distance(k),
{
    match step_outcome(maze, player, dir, block_size, k) {
        Some(r) => r,
        None => if step_distance(k + 1) > max_distance(block_size) {
            no_hit(block_size)
        } else {
            march(maze, player, dir, block_size, k + 1)
        },
    }
}

/// The world-unit pixel of every probe from the `k`-th on that the ray
/// passes through.
pub open spec fn trace(maze: Seq<Vec<char>>, player: Player, dir: Dir, block_size: int, k: nat) -> Seq<Pixel>
    decreases max_distance(block_size) - step_distance(k),
{
    match step_outcome(maze, player, dir, block_size, k) {
        Some(_) => seq![],
        None => {
            let px = Pixel {
                x: (probe_x(player, dir, k) / (UNIT as int)) as u32,
                y: (probe_y(player, dir, k) / (UNIT as int)) as u32,
            };
            if step_distance(k + 1) > max_distance(block_size) {
                seq![px]
            } else {
                seq![px] + trace(maze, player, dir, block_size, k + 1)
            }
        },
    }
}

/// What a ray cast from the player along `dir` finds.
pub open spec fn cast(maze: Seq<Vec<char>>, player: Player, dir: Dir, block_size: int) -> Intersect {
    march(maze, player, dir, block_size, 0)
}

proof fn lemma_tex_column_bound(hx: int, hy: int, block_size: int)
    requires
        0 <= hx < block_size,
        0 <= hy < block_size,
    ensures
        0 <= tex_column(hx, hy, block_size) < TEX_SIZE,
{
    let m = if 1 < hx && hx < block_size - 1 {
        hx
    } else {
        hy
    };
    assert(0 <= m * 128 / block_size < 128) by (nonlinear_arith)
        requires
            0 <= m < block_size,
    ;
}

/// Casts one ray from the player along `dir`, stepping a world unit at a
/// time, and reports the first cell that stops it. With `draw`, the pixel of
/// each probe that passed through is appended to `framebuffer`.
pub fn cast_ray(
    framebuffer: &mut Vec<Pixel>,
    maze: &Maze,
    player: &Player,
    dir: Dir,
    block_size: usize,
    draw: bool,
) -> (r: Intersect)
    requires
        world_fits(maze@, block_size as int),
        player.pos.valid(),
        dir.valid(),
    ensures
        r == cast(maze@, *player, dir, block_size as int),
        r.tx < TEX_SIZE,
        1 <= r.distance <= max_distance(block_size as int) <= 20_000_000,
        final(framebuffer)@ == old(framebuffer)@ + if draw {
            trace(maze@, *player, dir, block_size as int, 0)
        } else {
            seq![]
        },
{
    let ghost m = maze@;
    let ghost bs = block_size as int;
    let nrows = maze.len();
    let ncols = maze[0].len();
    proof {
        crate::grid::lemma_world_dims(m, bs);
    }
    let bs_i: i64 = block_size as i64;
    let max_d: i64 = bs_i * MAX_CELLS * 10;
    let world_w: i64 = ncols as i64 * bs_i * UNIT;
    let world_h: i64 = nrows as i64 * bs_i * UNIT;
    let mut d: i64 = 1;
    let ghost mut k: nat = 0;
    let ghost fb0 = framebuffer@;
    proof {
        assert(fb0 + Seq::<Pixel>::empty() =~= fb0);
    }
    loop
        invariant
            world_fits(m, bs),
            m == maze@,
            bs == block_size,
            bs_i == bs,
            1 <= bs <= 10_000,
            nrows <= 10_000,
            ncols <= 10_000,
            nrows == rows(m),
            ncols == cols(m),
            max_d == max_distance(bs),
            world_w == cols(m) * bs * UNIT,
            world_h == rows(m) * bs * UNIT,
            player.pos.valid(),
            dir.valid(),
            d == step_distance(k),
            1 <= d <= max_d,
            march(m, *player, dir, bs, 0) == march(m, *player, dir, bs, k),
            draw ==> fb0 + trace(m, *player, dir, bs, 0) == framebuffer@ + trace(m, *player, dir, bs, k),
            !draw ==> framebuffer@ == fb0,
            fb0 + Seq::<Pixel>::empty() == fb0,
            fb0 == old(framebuffer)@,
        decreases max_d - d,
    {
        proof {
            assert(-200_000_000_000 <= d * dir.c <= 200_000_000_000) by (nonlinear_arith)
                requires
                    1 <= d <= 20_000_000,
                    -10_000 <= dir.c <= 10_000,
            ;
            assert(-200_000_000_000 <= d * dir.s <= 200_000_000_000) by (nonlinear_arith)
                requires
                    1 <= d <= 20_000_000,
                    -10_000 <= dir.s <= 10_000,
            ;
        }
        let wx = player.pos.x + d * dir.c;
        let wy = player.pos.y + d * dir.s;
        if wx < 0 || wy < 0 || wx >= world_w || wy >= world_h {
            proof {
                assert(framebuffer@ + trace(m, *player, dir, bs, k) =~= framebuffer@);
            }
            return Intersect { distance: max_d, impact: ' ', tx: 0 };
        }
        let x = wx / UNIT;
        let y = wy / UNIT;
        let i = x / bs_i;
        let j = y / bs_i;
        if j >= nrows as i64 || i >= ncols as i64 {
            proof {
                assert(framebuffer@ + trace(m, *player, dir, bs, k) =~= framebuffer@);
            }
            return Intersect { distance: max_d, impact: ' ', tx: 0 };
        }
        let c = maze[j as usize][i as usize];
        if c != ' ' && c != 'g' && c != 'G' {
            proof {
                vstd::arithmetic::div_mod::lemma_fundamental_div_mod(x as int, bs);
                vstd::arithmetic::div_mod::lemma_fundamental_div_mod(y as int, bs);
                assert(0 <= i * bs_i <= 100_000_000) by (nonlinear_arith)
                    requires
                        0 <= i <= 10_000,
                        1 <= bs_i <= 10_000,
                ;
                assert(0 <= j * bs_i <= 100_000_000) by (nonlinear_arith)
                    requires
                        0 <= j <= 10_000,
                        1 <= bs_i <= 10_000,
                ;
                assert(i * bs_i == bs * (x as int / bs));
                assert(j * bs_i == bs * (y as int / bs));
                assert(x - i * bs_i == (x as int) % bs);
                assert(y - j * bs_i == (y as int) % bs);
            }
            let hitx = x - i * bs_i;
            let hity = y - j * bs_i;
            let mut maxhit = hity;
            if 1 < hitx && hitx < bs_i - 1 {
                maxhit = hitx;
            }
            proof {
                lemma_tex_column_bound((x as int) % bs, (y as int) % bs, bs);
            }
            let tx = (maxhit * 128 / bs_i) as usize;
            proof {
                assert(framebuffer@ + trace(m, *player, dir, bs, k) =~= framebuffer@);
            }
            return Intersect { distance: d, impact: c, tx };
        }
        let ghost fb_before = framebuffer@;
        let px = Pixel { x: x as u32, y: y as u32 };
        if draw {
            framebuffer.push(px);
        }
        d = d + 10;
        proof {
            if draw {
                if d > max_d {
                    assert(fb_before + trace(m, *player, dir, bs, k) =~= framebuffer@);
                } else {
                    assert(fb_before + trace(m, *player, dir, bs, k) =~= framebuffer@ + trace(m, *player, dir, bs, k + 1));
                }
            }
            k = k + 1;
        }
        if d > max_d {
            return Intersect { distance: max_d, impact: ' ', tx: 0 };
        }
    }
}

/// A ray whose first probe already lies outside the world finds nothing: the
/// cast ends on its first step with the "no hit" result.
pub proof fn lemma_exit_at_first_probe(maze: Seq<Vec<char>>, player: Player, dir: Dir, block_size: int)
    requires
        probe_x(player, dir, 0) < 0 || probe_y(player, dir, 0) < 0
            || probe_x(player, dir, 0) >= cols(maze) * block_size * UNIT
            || probe_y(player, dir, 0) >= rows(maze) * block_size * UNIT,
    ensures
        step_outcome(maze, player, dir, block_size, 0) == Some(no_hit(block_size)),
        cast(maze, player, dir, block_size) == no_hit(block_size),
{
}

/// Cell `(j, i)` lies on the maze's border.
pub open spec fn on_border(maze: Seq<Vec<char>>, j: int, i: int) -> bool {
    j == 0 || i == 0 || j == rows(maze) - 1 || i == cols(maze) - 1
}

/// Every border cell stops rays and every inner cell is empty floor.
pub open spec fn walled_empty(maze: Seq<Vec<char>>) -> bool {
    forall|j: int, i: int|
        0 <= j < rows(maze) && 0 <= i < cols(maze) ==> if on_border(maze, j, i) {
            blocks_ray(#[trigger] maze[j]@[i])
        } else {
            maze[j]@[i] == ' '
        }
}

/// A position, in sub-units, inside the inner cells of the maze.
pub open spec fn in_interior(maze: Seq<Vec<char>>, block_size: int, x: int, y: int) -> bool {
    &&& block_size * UNIT <= x < (cols(maze) - 1) * block_size * UNIT
    &&& block_size * UNIT <= y < (rows(maze) - 1) * block_size * UNIT
}

/// A walled maze of empty floor whose inner part spans at most 198 cells
/// across its diagonal, so that it lies within a ray's reach; a player
/// strictly inside it; and a direction of length one up to the rounding of
/// its components.
pub open spec fn enclosed_setting(maze: Seq<Vec<char>>, player: Player, dir: Dir, block_size: int) -> bool {
    &&& world_fits(maze, block_size)
    &&& walled_empty(maze)
    &&& (cols(maze) - 2) * (cols(maze) - 2) + (rows(maze) - 2) * (rows(maze) - 2) <= 198 * 198
    &&& in_interior(maze, block_size, player.pos.x as int, player.pos.y as int)
    &&& dir.valid()
    &&& dir.c * dir.c + dir.s * dir.s >= (DIR_ONE - 2) * (DIR_ONE - 2)
}

/// Along one axis of `n` cells: a sub-unit coordinate inside the world lies in
/// a cell of the grid, and that cell is an inner one exactly when the
/// coordinate lies inside the inner cells.
proof fn lemma_axis_cell(w: int, n: int, block_size: int)
    requires
        n >= 1,
        block_size >= 1,
        0 <= w < n * block_size * UNIT,
    ensures
        0 <= (w / (UNIT as int)) / block_size < n,
        ((w / (UNIT as int)) / block_size >= 1) == (w >= block_size * UNIT),
        ((w / (UNIT as int)) / block_size <= n - 2) == (w < (n - 1) * block_size * UNIT),
{
    let u = UNIT as int;
    let q = u * block_size;
    vstd::arithmetic::div_mod::lemma_div_denominator(w, u, block_size);
    vstd::arithmetic::div_mod::lemma_fundamental_div_mod(w, q);
    let k = w / q;
    let r = w % q;
    assert(w == q * k + r && 0 <= r < q);
    assert(0 <= k < n) by (nonlinear_arith)
        requires
            w == q * k + r,
            0 <= r < q,
            0 <= w < n * block_size * UNIT,
            q == UNIT * block_size,
    ;
    assert((k >= 1) == (w >= q)) by (nonlinear_arith)
        requires
            w == q * k + r,
            0 <= r < q,
    ;
    assert((k <= n - 2) == (w < (n - 1) * q)) by (nonlinear_arith)
        requires
            w == q * k + r,
            0 <= r < q,
    ;
    assert((n - 1) * q == (n - 1) * block_size * UNIT) by (nonlinear_arith)
        requires
            q == UNIT * block_size,
    ;
}

/// A ray from inside the inner cells of a walled maze cannot still be inside
/// them once it has gone nearly its full distance.
proof fn lemma_interior_within_reach(maze: Seq<Vec<char>>, player: Player, dir: Dir, block_size: int, k: nat)
    requires
        enclosed_setting(maze, player, dir, block_size),
        in_interior(maze, block_size, probe_x(player, dir, k), probe_y(player, dir, k)),
    ensures
        step_distance(k + 1) <= max_distance(block_size),
{
    if step_distance(k + 1) > max_distance(block_size) {
        let bs = block_size;
        let d = step_distance(k);
        let cw = (cols(maze) - 2) * bs * UNIT;
        let rh = (rows(maze) - 2) * bs * UNIT;
        let a = d * dir.c;
        let b = d * dir.s;
        assert(d >= 1990 * bs);
        assert(probe_x(player, dir, k) == player.pos.x + a);
        assert(probe_y(player, dir, k) == player.pos.y + b);
        assert((cols(maze) - 1) * bs * UNIT - bs * UNIT == cw) by (nonlinear_arith)
            requires
                cw == (cols(maze) - 2) * bs * UNIT,
        ;
        assert((rows(maze) - 1) * bs * UNIT - bs * UNIT == rh) by (nonlinear_arith)
            requires
                rh == (rows(maze) - 2) * bs * UNIT,
        ;
        assert(-cw < a < cw);
        assert(-rh < b < rh);
        assert(a * a < cw * cw) by (nonlinear_arith)
            requires
                -cw < a < cw,
        ;
        assert(b * b < rh * rh) by (nonlinear_arith)
            requires
                -rh < b < rh,
        ;
        let cn = cols(maze) - 2;
        let rn = rows(maze) - 2;
        assert(cw * cw + rh * rh == (cn * cn + rn * rn) * (bs * bs) * 10_000_000_000) by (nonlinear_arith)
            requires
                cw == cn * bs * 100_000,
                rh == rn * bs * 100_000,
        ;
        assert((cn * cn + rn * rn) * (bs * bs) * 10_000_000_000 <= 39_204 * (bs * bs) * 10_000_000_000) by (nonlinear_arith)
            requires
                cn * cn + rn * rn <= 39_204,
        ;
        assert(a * a + b * b == (d * d) * (dir.c * dir.c + dir.s * dir.s)) by (nonlinear_arith)
            requires
                a == d * dir.c,
                b == d * dir.s,
        ;
        assert(d * d >= 3_960_100 * (bs * bs)) by (nonlinear_arith)
            requires
                d >= 1990 * bs,
                bs >= 1,
        ;
        assert((d * d) * (dir.c * dir.c + dir.s * dir.s) >= 3_960_100 * (bs * bs) * 99_960_004) by (nonlinear_arith)
            requires
                d * d >= 3_960_100 * (bs * bs),
                dir.c * dir.c + dir.s * dir.s >= 99_960_004,
        ;
        assert(3_960_100 * (bs * bs) * 99_960_004 > 39_204 * (bs * bs) * 10_000_000_000) by (nonlinear_arith)
            requires
                bs >= 1,
        ;
    }
}

/// A step of at most a world unit from inside the inner cells stays inside
/// the world.
proof fn lemma_step_inside(n: int, block_size: int, w: int, delta: int)
    requires
        block_size >= 1,
        block_size * UNIT <= w < (n - 1) * block_size * UNIT,
        -UNIT <= delta <= UNIT,
    ensures
        0 <= w + delta < n * block_size * UNIT,
{
    assert((n - 1) * block_size * UNIT + UNIT <= n * block_size * UNIT) by (nonlinear_arith)
        requires
            block_size >= 1,
    ;
    assert(block_size * UNIT >= UNIT) by (nonlinear_arith)
        requires
            block_size >= 1,
    ;
}

proof fn lemma_march_reaches_border(maze: Seq<Vec<char>>, player: Player, dir: Dir, block_size: int, k: nat)
    requires
        enclosed_setting(maze, player, dir, block_size),
        0 <= probe_x(player, dir, k) < cols(maze) * block_size * UNIT,
        0 <= probe_y(player, dir, k) < rows(maze) * block_size * UNIT,
        step_distance(k) <= max_distance(block_size),
    ensures
        ({
            let r = march(maze, player, dir, block_size, k);
            &&& blocks_ray(r.impact)
            &&& exists|j: int, i: int|
                0 <= j < rows(maze) && 0 <= i < cols(maze) && on_border(maze, j, i) && #[trigger] maze[j]@[i]
                    == r.impact
            &&& (r.distance * dir.c) * (r.distance * dir.c) + (r.distance * dir.s) * (r.distance * dir.s)
                < (cols(maze) * block_size * UNIT) * (cols(maze) * block_size * UNIT) + (rows(maze)
                * block_size * UNIT) * (rows(maze) * block_size * UNIT)
        }),
    decreases max_distance(block_size) - step_distance(k),
{
    crate::grid::lemma_world_dims(maze, block_size);
    let wx = probe_x(player, dir, k);
    let wy = probe_y(player, dir, k);
    let cw = cols(maze) * block_size * UNIT;
    let rh = rows(maze) * block_size * UNIT;
    lemma_axis_cell(wx, cols(maze), block_size);
    lemma_axis_cell(wy, rows(maze), block_size);
    let i = (wx / (UNIT as int)) / block_size;
    let j = (wy / (UNIT as int)) / block_size;
    if on_border(maze, j, i) {
        assert(blocks_ray(maze[j]@[i]));
        let r = march(maze, player, dir, block_size, k);
        let d = step_distance(k);
        assert(r.distance == d);
        let a = d * dir.c;
        let b = d * dir.s;
        assert(wx == player.pos.x + a);
        assert(wy == player.pos.y + b);
        assert((cols(maze) - 1) * block_size * UNIT <= cw && (rows(maze) - 1) * block_size * UNIT <= rh) by (nonlinear_arith)
            requires
                block_size >= 1,
                cw == cols(maze) * block_size * UNIT,
                rh == rows(maze) * block_size * UNIT,
        ;
        assert(-cw < a < cw);
        assert(-rh < b < rh);
        assert(a * a < cw * cw) by (nonlinear_arith)
            requires
                -cw < a < cw,
        ;
        assert(b * b < rh * rh) by (nonlinear_arith)
            requires
                -rh < b < rh,
        ;
        assert(on_border(maze, j, i) && maze[j]@[i] == r.impact);
    } else {
        assert(maze[j]@[i] == ' ');
        assert(step_outcome(maze, player, dir, block_size, k) is None);
        lemma_interior_within_reach(maze, player, dir, block_size, k);
        let d = step_distance(k);
        assert(step_distance(k + 1) * dir.c == d * dir.c + 10 * dir.c
            && step_distance(k + 1) * dir.s == d * dir.s + 10 * dir.s) by (nonlinear_arith)
            requires
                step_distance(k + 1) == d + 10,
        ;
        lemma_step_inside(cols(maze), block_size, wx, 10 * dir.c);
        lemma_step_inside(rows(maze), block_size, wy, 10 * dir.s);
        lemma_march_reaches_border(maze, player, dir, block_size, k + 1);
    }
}

/// From strictly inside a walled maze of empty floor, a ray in any direction
/// stops at a wall of the border, and the point it stops at lies within the
/// grid's diagonal of the player: the squared displacement, in sub-units, is
/// below the squared diagonal of the world.
pub proof fn lemma_enclosed_ray_hits_border(maze: Seq<Vec<char>>, player: Player, dir: Dir, block_size: int)
    requires
        enclosed_setting(maze, player, dir, block_size),
    ensures
        ({
            let r = cast(maze, player, dir, block_size);
            &&& blocks_ray(r.impact)
            &&& exists|j: int, i: int|
                0 <= j < rows(maze) && 0 <= i < cols(maze) && on_border(maze, j, i) && #[trigger] maze[j]@[i]
                    == r.impact
            &&& (r.distance * dir.c) * (r.distance * dir.c) + (r.distance * dir.s) * (r.distance * dir.s)
                < (cols(maze) * block_size * UNIT) * (cols(maze) * block_size * UNIT) + (rows(maze)
                * block_size * UNIT) * (rows(maze) * block_size * UNIT)
        }),
{
    crate::grid::lemma_world_dims(maze, block_size);
    let sd = step_distance(0);
    assert(sd * dir.c == dir.c && sd * dir.s == dir.s) by (nonlinear_arith)
        requires
            sd == 1,
    ;
    lemma_step_inside(cols(maze), block_size, player.pos.x as int, dir.c as int);
    lemma_step_inside(rows(maze), block_size, player.pos.y as int, dir.s as int);
    lemma_march_reaches_border(maze, player, dir, block_size, 0);
}

} // verus!
