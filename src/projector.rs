use vstd::prelude::*;
use crate::caster::{blocks_ray, cast, cast_ray, max_distance, probe_x, probe_y, step_outcome, Intersect, Pixel};
use crate::grid::{cols, rows, world_fits, Dir, Maze, DIR_ONE, UNIT};
use crate::palette::Tint;
use crate::player::Player;

verus! {

/// The visual scale of a wall stake, in percent of the planar height.
pub const STAKE_SCALE_PERCENT: i64 = 15;

/// The largest screen dimension, and projection-plane distance, in pixels.
pub const MAX_SCREEN: u32 = 32_768;

/// The ray of one screen column: its direction, and the cosine of its angle
/// off the heading, scaled by `DIR_ONE`.
#[derive(Clone, Copy, Debug, PartialEq, Eq, Structural)]
pub struct ColumnRay {
    pub dir: Dir,
    pub cos_offset: i64,
}

impl ColumnRay {
    pub open spec fn valid(self) -> bool {
        self.dir.valid() && -DIR_ONE <= self.cos_offset <= DIR_ONE
    }
}

/// The vertical span drawn for one screen column: rows `[top, bottom)` of
/// column `column`, in `tint`, with the corrected distance as a depth hint.
#[derive(Clone, Copy, Debug, PartialEq, Eq, Structural)]
pub struct Stake {
    pub column: u32,
    pub top: u32,
    pub bottom: u32,
    pub tint: Tint,
    pub depth: i64,
}

/// The angle of the ray through screen column `i` of `width`: the left edge of
/// the field of view plus the column's share of it.
pub open spec fn ray_angle(heading: int, fov: int, i: int, width: int) -> int {
    heading - fov / 2 + fov * i / width
}

/// Angle of the ray through column `i`, in microradians.
pub fn column_angle(heading: i64, fov: i64, i: u32, width: u32) -> (r: i64)
    requires
        -1_000_000_000_000 <= heading <= 1_000_000_000_000,
        0 <= fov <= 1_000_000_000,
        i < width,
    ensures
        r == ray_angle(heading as int, fov as int, i as int, width as int),
{
    proof {
        assert(0 <= fov * i <= fov * width) by (nonlinear_arith)
            requires
                0 <= fov,
                0 <= i < width,
        ;
        assert(fov * width <= 1_000_000_000 * 4_294_967_296) by (nonlinear_arith)
            requires
                0 <= fov <= 1_000_000_000,
                0 <= width <= 4_294_967_296,
        ;
        assert(fov as int * i as int / width as int <= fov) by (nonlinear_arith)
            requires
                0 <= fov,
                0 <= i < width,
        ;
    }
    heading - fov / 2 + fov * (i as i64) / (width as i64)
}

/// The raw distance corrected for the fish-eye effect: scaled by the cosine
/// of the ray's angle off the heading, and kept at least one tenth of a unit.
pub open spec fn corrected_distance(raw: int, cos_offset: int) -> int {
    if raw * cos_offset < DIR_ONE {
        1
    } else {
        raw * cos_offset / (DIR_ONE as int)
    }
}

/// Fish-eye correction of a ray's distance.
pub fn fisheye_correct(raw: i64, cos_offset: i64) -> (r: i64)
    requires
        0 <= raw <= 1_000_000_000,
        -DIR_ONE <= cos_offset <= DIR_ONE,
    ensures
        r == corrected_distance(raw as int, cos_offset as int),
        1 <= r && (r <= raw || raw == 0),
{
    proof {
        assert(-10_000_000_000_000 <= raw * cos_offset <= 10_000_000_000_000) by (nonlinear_arith)
            requires
                0 <= raw <= 1_000_000_000,
                -10_000 <= cos_offset <= 10_000,
        ;
    }
    let p = raw * cos_offset;
    if p < DIR_ONE {
        1
    } else {
        proof {
            assert(p / 10_000 <= raw) by (nonlinear_arith)
                requires
                    p == raw * cos_offset,
                    0 <= raw,
                    cos_offset <= 10_000,
                    p >= 10_000,
            ;
        }
        p / DIR_ONE
    }
}

/// The height in pixels of a wall at `corrected` tenths of a unit: half the
/// screen height over the distance in units, times the projection-plane
/// distance, times the stake scale, rounded up so that a wall of any positive
/// height keeps at least one pixel.
pub open spec fn stake_height(height: int, plane: int, corrected: int) -> int {
    let n = height * plane * STAKE_SCALE_PERCENT * 10;
    let d = 200 * corrected;
    (n + d - 1) / d
}

/// The tint of a wall from the code of the cell struck.
pub open spec fn wall_tint(c: char) -> Tint {
    if c == '+' {
        Tint::OrangeRed
    } else if c == 'g' {
        Tint::Green
    } else {
        Tint::Yellow
    }
}

/// Picks the tint of a wall from the code of the cell struck.
pub fn impact_tint(c: char) -> (r: Tint)
    ensures
        r == wall_tint(c),
{
    if c == '+' {
        Tint::OrangeRed
    } else if c == 'g' {
        Tint::Green
    } else {
        Tint::Yellow
    }
}

/// The stake of column `column` for a ray that found `hit`: centred on the
/// middle of the screen, its ends rounded outward, cut at the top and bottom
/// of the screen. A ray that found nothing (impact `' '`, which only the
/// "no hit" result carries, since empty floor never stops a ray) gets an
/// empty stake at the middle row: its column stays background.
pub open spec fn stake_of(hit: Intersect, column: int, cos_offset: int, height: int, plane: int) -> Stake {
    let corrected = corrected_distance(hit.distance as int, cos_offset);
    let h = stake_height(height, plane, corrected);
    let top = if hit.impact == ' ' {
        height / 2
    } else if h >= height {
        0
    } else {
        (height - h) / 2
    };
    let bottom = if hit.impact == ' ' {
        height / 2
    } else if h >= height {
        height
    } else {
        (height + h + 1) / 2
    };
    Stake {
        column: column as u32,
        top: top as u32,
        bottom: bottom as u32,
        tint: wall_tint(hit.impact),
        depth: corrected as i64,
    }
}

/// Projects one ray's hit into the stake of its column.
pub fn project_column(hit: &Intersect, column: u32, cos_offset: i64, height: u32, plane: u32) -> (r: Stake)
    requires
        0 <= hit.distance <= 1_000_000_000,
        -DIR_ONE <= cos_offset <= DIR_ONE,
        height <= MAX_SCREEN,
        plane <= MAX_SCREEN,
    ensures
        r == stake_of(*hit, column as int, cos_offset as int, height as int, plane as int),
        r.top <= r.bottom <= height,
        hit.impact == ' ' ==> r.top == r.bottom,
{
    let corrected = fisheye_correct(hit.distance, cos_offset);
    let hi = height as i64;
    proof {
        assert(0 <= hi * plane <= 32_768 * 32_768) by (nonlinear_arith)
            requires
                0 <= hi <= 32_768,
                0 <= plane <= 32_768,
        ;
    }
    let n = hi * (plane as i64) * STAKE_SCALE_PERCENT * 10;
    let d = 200 * corrected;
    let h = (n + d - 1) / d;
    let top = if hit.impact == ' ' {
        hi / 2
    } else if h >= hi {
        0
    } else {
        (hi - h) / 2
    };
    let bottom = if hit.impact == ' ' {
        hi / 2
    } else if h >= hi {
        hi
    } else {
        (hi + h + 1) / 2
    };
    Stake {
        column,
        top: top as u32,
        bottom: bottom as u32,
        tint: impact_tint(hit.impact),
        depth: corrected,
    }
}

/// Projects every screen column: casts the column's ray and turns its hit
/// into a stake, column `i` from `rays[i]`.
pub fn render_world(
    player: &Player,
    maze: &Maze,
    block_size: usize,
    rays: &Vec<ColumnRay>,
    height: u32,
    plane: u32,
) -> (r: Vec<Stake>)
    requires
        world_fits(maze@, block_size as int),
        player.pos.valid(),
        rays.len() <= u32::MAX,
        forall|i: int| 0 <= i < rays.len() ==> (#[trigger] rays[i]).valid(),
        height <= MAX_SCREEN,
        plane <= MAX_SCREEN,
    ensures
        r.len() == rays.len(),
        forall|i: int|
            0 <= i < rays.len() ==> #[trigger] r[i] == stake_of(
                cast(maze@, *player, rays[i].dir, block_size as int),
                i,
                rays[i].cos_offset as int,
                height as int,
                plane as int,
            ),
        forall|i: int|
            0 <= i < rays.len() && cast(maze@, *player, rays[i].dir, block_size as int).impact == ' ' ==> (
            #[trigger] r[i]).top == r[i].bottom,
{
    let mut stakes: Vec<Stake> = Vec::new();
    let mut scratch: Vec<Pixel> = Vec::new();
    let n = rays.len();
    let mut i: usize = 0;
    while i < n
        invariant
            n == rays.len(),
            n <= u32::MAX,
            i <= n,
            stakes.len() == i,
            world_fits(maze@, block_size as int),
            player.pos.valid(),
            forall|k: int| 0 <= k < rays.len() ==> (#[trigger] rays[k]).valid(),
            height <= MAX_SCREEN,
            plane <= MAX_SCREEN,
            forall|k: int|
                0 <= k < i ==> #[trigger] stakes[k] == stake_of(
                    cast(maze@, *player, rays[k].dir, block_size as int),
                    k,
                    rays[k].cos_offset as int,
                    height as int,
                    plane as int,
                ),
        decreases n - i,
    {
        let ray = rays[i];
        let hit = cast_ray(&mut scratch, maze, player, ray.dir, block_size, false);
        let stake = project_column(&hit, i as u32, ray.cos_offset, height, plane);
        stakes.push(stake);
        i = i + 1;
    }
    stakes
}

/// On the ray through the middle column of an even number of columns the
/// ray's angle is the heading itself; there the cosine off the heading is one,
/// and the fish-eye correction leaves the distance as it was.
pub proof fn lemma_center_ray_uncorrected(heading: int, fov: int, width: int, raw: int)
    requires
        width > 0,
        width % 2 == 0,
        fov >= 0,
        raw >= 1,
    ensures
        ray_angle(heading, fov, width / 2, width) == heading,
        corrected_distance(raw, DIR_ONE as int) == raw,
{
    let n = width / 2;
    assert(n * 2 == width);
    vstd::arithmetic::div_mod::lemma_div_multiples_vanish_quotient(n, fov, 2);
    assert(n * fov == fov * n) by (nonlinear_arith);
    assert(raw * 10_000 >= 10_000) by (nonlinear_arith)
        requires
            raw >= 1,
    ;
    vstd::arithmetic::div_mod::lemma_div_multiples_vanish(raw, 10_000);
    assert(raw * 10_000 == 10_000 * raw) by (nonlinear_arith);
}

/// Every cell of the maze stops rays.
pub open spec fn all_walls(m: Seq<Vec<char>>) -> bool {
    forall|j: int, i: int| 0 <= j < rows(m) && 0 <= i < cols(m) ==> blocks_ray(#[trigger] m[j]@[i])
}

/// The player stands at least a world unit inside the world's edges.
pub open spec fn well_inside(m: Seq<Vec<char>>, player: Player, block_size: int) -> bool {
    &&& UNIT <= player.pos.x < cols(m) * block_size * UNIT - UNIT
    &&& UNIT <= player.pos.y < rows(m) * block_size * UNIT - UNIT
}

/// In a maze made only of walls, a ray from a player well inside stops at its
/// first probe, a tenth of a unit away, on a wall.
pub proof fn lemma_first_probe_hits(m: Seq<Vec<char>>, player: Player, dir: Dir, block_size: int)
    requires
        world_fits(m, block_size),
        all_walls(m),
        well_inside(m, player, block_size),
        dir.valid(),
    ensures
        cast(m, player, dir, block_size).distance == 1,
        cast(m, player, dir, block_size).impact != ' ',
{
    crate::grid::lemma_world_dims(m, block_size);
    let wx = probe_x(player, dir, 0);
    let wy = probe_y(player, dir, 0);
    let sd = crate::caster::step_distance(0);
    assert(sd * dir.c == dir.c && sd * dir.s == dir.s) by (nonlinear_arith)
        requires
            sd == 1,
    ;
    assert(wx == player.pos.x + dir.c);
    assert(wy == player.pos.y + dir.s);
    assert(0 <= wx < cols(m) * block_size * UNIT);
    assert(0 <= wy < rows(m) * block_size * UNIT);
    let x = wx / (UNIT as int);
    let y = wy / (UNIT as int);
    assert(cols(m) * block_size * UNIT - 1 == UNIT * (cols(m) * block_size - 1) + (UNIT - 1)) by (nonlinear_arith);
    assert(rows(m) * block_size * UNIT - 1 == UNIT * (rows(m) * block_size - 1) + (UNIT - 1)) by (nonlinear_arith);
    assert(cols(m) * block_size - 1 == block_size * (cols(m) - 1) + (block_size - 1)) by (nonlinear_arith);
    assert(rows(m) * block_size - 1 == block_size * (rows(m) - 1) + (block_size - 1)) by (nonlinear_arith);
    assert(x < cols(m) * block_size) by {
        vstd::arithmetic::div_mod::lemma_div_is_ordered(wx, cols(m) * block_size * UNIT - 1, UNIT as int);
        vstd::arithmetic::div_mod::lemma_div_multiples_vanish_fancy(cols(m) * block_size - 1, UNIT - 1, UNIT as int);
    }
    assert(y < rows(m) * block_size) by {
        vstd::arithmetic::div_mod::lemma_div_is_ordered(wy, rows(m) * block_size * UNIT - 1, UNIT as int);
        vstd::arithmetic::div_mod::lemma_div_multiples_vanish_fancy(rows(m) * block_size - 1, UNIT - 1, UNIT as int);
    }
    let i = x / block_size;
    let j = y / block_size;
    assert(0 <= i < cols(m)) by {
        vstd::arithmetic::div_mod::lemma_div_is_ordered(x, cols(m) * block_size - 1, block_size);
        vstd::arithmetic::div_mod::lemma_div_multiples_vanish_fancy(cols(m) - 1, block_size - 1, block_size);
    }
    assert(0 <= j < rows(m)) by {
        vstd::arithmetic::div_mod::lemma_div_is_ordered(y, rows(m) * block_size - 1, block_size);
        vstd::arithmetic::div_mod::lemma_div_multiples_vanish_fancy(rows(m) - 1, block_size - 1, block_size);
    }
    assert(blocks_ray(m[j]@[i]));
    assert(step_outcome(m, player, dir, block_size, 0) is Some);
}

/// Over a maze made only of walls, with the player well inside, every
/// column's ray meets a wall well short of the farthest distance, and every
/// column's stake is taller than zero and covers at least one row.
pub proof fn lemma_all_walls_full_stakes(
    m: Seq<Vec<char>>,
    player: Player,
    rays: Seq<ColumnRay>,
    block_size: int,
    height: int,
    plane: int,
)
    requires
        world_fits(m, block_size),
        all_walls(m),
        well_inside(m, player, block_size),
        forall|i: int| 0 <= i < rays.len() ==> (#[trigger] rays[i]).valid(),
        1 <= height <= MAX_SCREEN,
        1 <= plane <= MAX_SCREEN,
    ensures
        forall|i: int|
            0 <= i < rays.len() ==> {
                let hit = cast(m, player, (#[trigger] rays[i]).dir, block_size);
                let st = stake_of(hit, i, rays[i].cos_offset as int, height, plane);
                &&& hit.impact != ' '
                &&& hit.distance < max_distance(block_size)
                &&& stake_height(height, plane, corrected_distance(hit.distance as int, rays[i].cos_offset as int)) > 0
                &&& st.top < st.bottom
            },
{
    crate::grid::lemma_world_dims(m, block_size);
    assert forall|i: int| 0 <= i < rays.len() implies {
        let hit = cast(m, player, (#[trigger] rays[i]).dir, block_size);
        let st = stake_of(hit, i, rays[i].cos_offset as int, height, plane);
        &&& hit.impact != ' '
        &&& hit.distance < max_distance(block_size)
        &&& stake_height(height, plane, corrected_distance(hit.distance as int, rays[i].cos_offset as int)) > 0
        &&& st.top < st.bottom
    } by {
        let ray = rays[i];
        lemma_first_probe_hits(m, player, ray.dir, block_size);
        let c = ray.cos_offset as int;
        if c >= DIR_ONE {
            vstd::arithmetic::div_mod::lemma_div_multiples_vanish(1, 10_000);
        }
        assert(corrected_distance(1, c) == 1);
        let n = height * plane * 150;
        assert(n >= 150) by (nonlinear_arith)
            requires
                height >= 1,
                plane >= 1,
                n == height * plane * 150,
        ;
        vstd::arithmetic::div_mod::lemma_div_is_ordered(200, n + 199, 200);
        assert(stake_height(height, plane, 1) >= 1);
    }
}

} // verus!
