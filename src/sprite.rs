use vstd::prelude::*;
use crate::angles::{wrap, wrap_angle, MAX_HEADING, TWO_PI_MICRO};
use crate::caster::TEX_SIZE;
use crate::grid::{Point, UNIT};
use crate::palette::{transparent, transparent_color, Color};
use crate::player::Player;
use crate::projector::MAX_SCREEN;

verus! {

/// Nearer than this many world units a sprite is not drawn.
pub const NEAR_PLANE: i64 = 50;

/// Farther than this many world units a sprite is not drawn.
pub const FAR_PLANE: i64 = 1000;

/// On-screen sprite size: screen height over distance in units, times this.
pub const SPRITE_SCALE: i64 = 70;

/// A mobile actor: where it stands and which texture it shows.
#[derive(Clone, Copy, Debug, PartialEq, Eq, Structural)]
pub struct Enemy {
    pub pos: Point,
    pub texture_key: char,
}

/// A pixel write: colour `color` at `(x, y)`.
#[derive(Clone, Copy, Debug, PartialEq, Eq, Structural)]
pub struct PixelWrite {
    pub x: u32,
    pub y: u32,
    pub color: Color,
}

/// The screen rectangle `[start_x, end_x) × [start_y, end_y)` a sprite covers,
/// with its unclipped side length `size`.
#[derive(Clone, Copy, Debug, PartialEq, Eq, Structural)]
pub struct SpriteBox {
    pub start_x: u32,
    pub start_y: u32,
    pub end_x: u32,
    pub end_y: u32,
    pub size: u32,
}

/// A player whose angles the sprite projector can work with.
pub open spec fn view_ok(player: Player) -> bool {
    &&& player.pos.valid()
    &&& 0 < player.fov <= TWO_PI_MICRO
    &&& -MAX_HEADING <= player.a <= MAX_HEADING
}

/// `r` is the square root of `n`, rounded down.
pub open spec fn is_floor_sqrt(n: int, r: int) -> bool {
    0 <= r && r * r <= n < (r + 1) * (r + 1)
}

proof fn lemma_floor_sqrt_unique(n: int, r1: int, r2: int)
    requires
        is_floor_sqrt(n, r1),
        is_floor_sqrt(n, r2),
    ensures
        r1 == r2,
{
    if r1 < r2 {
        assert((r1 + 1) * (r1 + 1) <= r2 * r2) by (nonlinear_arith)
            requires
                0 <= r1 < r2,
        ;
    } else if r2 < r1 {
        assert((r2 + 1) * (r2 + 1) <= r1 * r1) by (nonlinear_arith)
            requires
                0 <= r2 < r1,
        ;
    }
}

/// The square root of `n`, rounded down.
pub open spec fn floor_sqrt(n: int) -> int {
    choose|r: int| is_floor_sqrt(n, r)
}

/// Square root rounded down, by bisection.
pub fn isqrt(n: u64) -> (r: u64)
    ensures
        is_floor_sqrt(n as int, r as int),
        r == floor_sqrt(n as int),
        r < 4_294_967_296,
{
    let mut lo: u64 = 0;
    let mut hi: u64 = 4_294_967_296;
    assert(hi * hi > n) by (nonlinear_arith)
        requires
            hi == 4_294_967_296,
            n <= 18_446_744_073_709_551_615,
    ;
    while hi - lo > 1
        invariant
            lo < hi <= 4_294_967_296,
            lo * lo <= n,
            n < hi * hi,
        decreases hi - lo,
    {
        let mid = lo + (hi - lo) / 2;
        assert(mid * mid <= 4_294_967_295 * 4_294_967_295) by (nonlinear_arith)
            requires
                mid < 4_294_967_296,
        ;
        if mid * mid <= n {
            lo = mid;
        } else {
            hi = mid;
        }
    }
    proof {
        assert(is_floor_sqrt(n as int, lo as int));
        lemma_floor_sqrt_unique(n as int, lo as int, floor_sqrt(n as int));
    }
    lo
}

/// The squared distance between two positions, in squared sub-units.
pub open spec fn dist_sq(p: Point, q: Point) -> int {
    (p.x - q.x) * (p.x - q.x) + (p.y - q.y) * (p.y - q.y)
}

/// Outside the near and far planes; the planes themselves are inside.
pub open spec fn out_of_range(d2: int) -> bool {
    d2 < (NEAR_PLANE * UNIT) * (NEAR_PLANE * UNIT) || d2 > (FAR_PLANE * UNIT) * (FAR_PLANE * UNIT)
}

/// Where an actor lands on a `width × height` screen, seen by `player` at
/// bearing `bearing`; `None` when it is culled: more than half the field of
/// view off the heading, or nearer than the near plane, or farther than the
/// far plane.
pub open spec fn sprite_box(player: Player, enemy: Enemy, bearing: int, width: int, height: int) -> Option<SpriteBox> {
    let diff = wrap(bearing - player.a);
    let d2 = dist_sq(player.pos, enemy.pos);
    if 2 * diff > player.fov || -2 * diff > player.fov || out_of_range(d2) {
        None
    } else {
        let size = height * SPRITE_SCALE * UNIT / floor_sqrt(d2);
        let cx = (2 * diff + player.fov) * width / (2 * player.fov);
        let sx = if cx - size / 2 < 0 {
            0
        } else {
            cx - size / 2
        };
        let sy = if height / 2 - size / 2 < 0 {
            0
        } else {
            height / 2 - size / 2
        };
        let ex = if sx + size > width {
            width
        } else {
            sx + size
        };
        let ey = if sy + size > height {
            height
        } else {
            sy + size
        };
        Some(
            SpriteBox {
                start_x: sx as u32,
                start_y: sy as u32,
                end_x: ex as u32,
                end_y: ey as u32,
                size: size as u32,
            },
        )
    }
}

/// Projects an actor to its screen rectangle, or `None` when it is culled.
pub fn project_sprite(player: &Player, enemy: &Enemy, bearing: i64, width: u32, height: u32) -> (r: Option<SpriteBox>)
    requires
        view_ok(*player),
        enemy.pos.valid(),
        -MAX_HEADING <= bearing <= MAX_HEADING,
        width <= MAX_SCREEN,
        height <= MAX_SCREEN,
    ensures
        r == sprite_box(*player, *enemy, bearing as int, width as int, height as int),
        r matches Some(b) ==> b.start_x <= b.end_x <= width && b.start_y <= b.end_y <= height
            && b.end_x - b.start_x <= b.size && b.end_y - b.start_y <= b.size,
{
    let diff = wrap_angle(bearing - player.a);
    let twice = 2 * diff;
    if twice > player.fov || -twice > player.fov {
        return None;
    }
    let dx = player.pos.x - enemy.pos.x;
    let dy = player.pos.y - enemy.pos.y;
    proof {
        assert(0 <= dx * dx <= 1_000_000_000_000_000_000) by (nonlinear_arith)
            requires
                -1_000_000_000 <= dx <= 1_000_000_000,
        ;
        assert(0 <= dy * dy <= 1_000_000_000_000_000_000) by (nonlinear_arith)
            requires
                -1_000_000_000 <= dy <= 1_000_000_000,
        ;
    }
    let d2: u64 = (dx * dx) as u64 + (dy * dy) as u64;
    let near: u64 = (NEAR_PLANE * UNIT) as u64;
    let far: u64 = (FAR_PLANE * UNIT) as u64;
    if d2 < near * near || d2 > far * far {
        return None;
    }
    let d = isqrt(d2);
    proof {
        assert(d >= 5_000_000) by (nonlinear_arith)
            requires
                d2 >= 5_000_000 * 5_000_000,
                d2 < (d + 1) * (d + 1),
                d >= 0,
        ;
    }
    let size: i64 = (height as i64) * SPRITE_SCALE * UNIT / (d as i64);
    proof {
        assert(size <= 2 * height) by (nonlinear_arith)
            requires
                size == height * 7_000_000 / (d as int),
                d >= 5_000_000,
                height >= 0,
        ;
        assert(0 <= (2 * diff + player.fov) * width <= 2 * player.fov * width) by (nonlinear_arith)
            requires
                0 <= 2 * diff + player.fov <= 2 * player.fov,
                0 <= width,
        ;
        assert(2 * player.fov * width <= 2 * 6_283_185 * 32_768) by (nonlinear_arith)
            requires
                0 < player.fov <= 6_283_185,
                0 <= width <= 32_768,
        ;
        assert((2 * diff + player.fov) * width / (2 * player.fov) <= width) by (nonlinear_arith)
            requires
                0 <= (2 * diff + player.fov) * width <= 2 * player.fov * width,
                player.fov > 0,
        ;
    }
    let cx: i64 = (2 * diff + player.fov) * (width as i64) / (2 * player.fov);
    let half = size / 2;
    let sx: i64 = if cx - half < 0 {
        0
    } else {
        cx - half
    };
    let hh = (height / 2) as i64;
    let sy: i64 = if hh - half < 0 {
        0
    } else {
        hh - half
    };
    let ex: i64 = if sx + size > width as i64 {
        width as i64
    } else {
        sx + size
    };
    let ey: i64 = if sy + size > height as i64 {
        height as i64
    } else {
        sy + size
    };
    Some(
        SpriteBox {
            start_x: sx as u32,
            start_y: sy as u32,
            end_x: ex as u32,
            end_y: ey as u32,
            size: size as u32,
        },
    )
}

/// The texel a screen pixel of a sprite's rectangle samples: the pixel's
/// place in the unclipped square, scaled to the texture.
pub open spec fn texel_index(b: SpriteBox, x: int, y: int) -> int {
    let tx = (x - b.start_x) * TEX_SIZE / (b.size as int);
    let ty = (y - b.start_y) * TEX_SIZE / (b.size as int);
    ty * TEX_SIZE + tx
}

/// The write for one pixel: none where the texel is the transparency key.
pub open spec fn texel_write(b: SpriteBox, texture: Seq<Color>, x: int, y: int) -> Seq<PixelWrite> {
    let c = texture[texel_index(b, x, y)];
    if c == transparent() {
        seq![]
    } else {
        seq![PixelWrite { x: x as u32, y: y as u32, color: c }]
    }
}

/// The writes for rows `[start_y, y)` of column `x`.
pub open spec fn column_writes(b: SpriteBox, texture: Seq<Color>, x: int, y: int) -> Seq<PixelWrite>
    decreases y - b.start_y,
{
    if y <= b.start_y {
        seq![]
    } else {
        column_writes(b, texture, x, y - 1) + texel_write(b, texture, x, y - 1)
    }
}

/// The writes for columns `[start_x, x)`, column by column.
pub open spec fn box_writes(b: SpriteBox, texture: Seq<Color>, x: int) -> Seq<PixelWrite>
    decreases x - b.start_x,
{
    if x <= b.start_x {
        seq![]
    } else {
        box_writes(b, texture, x - 1) + column_writes(b, texture, x - 1, b.end_y as int)
    }
}

/// Every pixel write that drawing an actor makes, in order.
pub open spec fn sprite_writes(player: Player, enemy: Enemy, bearing: int, texture: Seq<Color>, width: int, height: int) -> Seq<PixelWrite> {
    match sprite_box(player, enemy, bearing, width, height) {
        None => seq![],
        Some(b) => box_writes(b, texture, b.end_x as int),
    }
}

proof fn lemma_texel_in_range(b: SpriteBox, x: int, y: int)
    requires
        b.start_x <= x < b.end_x,
        b.start_y <= y < b.end_y,
        b.end_x - b.start_x <= b.size,
        b.end_y - b.start_y <= b.size,
    ensures
        0 <= texel_index(b, x, y) < TEX_SIZE * TEX_SIZE,
{
    let s = b.size as int;
    let tx = (x - b.start_x) * 128 / s;
    let ty = (y - b.start_y) * 128 / s;
    assert(0 <= tx < 128) by (nonlinear_arith)
        requires
            0 <= x - b.start_x < s,
            tx == (x - b.start_x) * 128 / s,
    ;
    assert(0 <= ty < 128) by (nonlinear_arith)
        requires
            0 <= y - b.start_y < s,
            ty == (y - b.start_y) * 128 / s,
    ;
}

/// Draws an actor as a billboard: each pixel of its screen rectangle takes
/// the texel it maps to, unless that texel is the transparency key.
/// `texture` is the actor's `TEX_SIZE × TEX_SIZE` texture, row by row.
pub fn draw_sprite(
    framebuffer: &mut Vec<PixelWrite>,
    player: &Player,
    enemy: &Enemy,
    bearing: i64,
    texture: &Vec<Color>,
    width: u32,
    height: u32,
)
    requires
        view_ok(*player),
        enemy.pos.valid(),
        -MAX_HEADING <= bearing <= MAX_HEADING,
        width <= MAX_SCREEN,
        height <= MAX_SCREEN,
        texture.len() == TEX_SIZE * TEX_SIZE,
    ensures
        final(framebuffer)@ == old(framebuffer)@ + sprite_writes(
            *player,
            *enemy,
            bearing as int,
            texture@,
            width as int,
            height as int,
        ),
{
    let ghost fb0 = framebuffer@;
    let bx = project_sprite(player, enemy, bearing, width, height);
    match bx {
        None => {
            assert(framebuffer@ =~= fb0 + Seq::<PixelWrite>::empty());
        },
        Some(b) => {
            let key = transparent_color();
            let mut x = b.start_x;
            assert(framebuffer@ =~= fb0 + box_writes(b, texture@, x as int));
            while x < b.end_x
                invariant
                    b.start_x <= x <= b.end_x <= width,
                    width <= MAX_SCREEN,
                    height <= MAX_SCREEN,
                    b.start_y <= b.end_y <= height,
                    b.end_x - b.start_x <= b.size,
                    b.end_y - b.start_y <= b.size,
                    texture.len() == TEX_SIZE * TEX_SIZE,
                    key == transparent(),
                    framebuffer@ == fb0 + box_writes(b, texture@, x as int),
                decreases b.end_x - x,
            {
                let mut y = b.start_y;
                let ghost fbx = framebuffer@;
                assert(framebuffer@ =~= fbx + column_writes(b, texture@, x as int, y as int));
                while y < b.end_y
                    invariant
                        b.start_x <= x < b.end_x <= width,
                        width <= MAX_SCREEN,
                        height <= MAX_SCREEN,
                        b.start_y <= y <= b.end_y <= height,
                        b.end_x - b.start_x <= b.size,
                        b.end_y - b.start_y <= b.size,
                        texture.len() == TEX_SIZE * TEX_SIZE,
                        key == transparent(),
                        fbx == fb0 + box_writes(b, texture@, x as int),
                        framebuffer@ == fbx + column_writes(b, texture@, x as int, y as int),
                    decreases b.end_y - y,
                {
                    proof {
                        lemma_texel_in_range(b, x as int, y as int);
                    }
                    let tx = ((x - b.start_x) as usize) * TEX_SIZE / (b.size as usize);
                    let ty = ((y - b.start_y) as usize) * TEX_SIZE / (b.size as usize);
                    let color = texture[ty * TEX_SIZE + tx];
                    let ghost before = framebuffer@;
                    if color != key {
                        framebuffer.push(PixelWrite { x, y, color });
                    }
                    proof {
                        assert(before + texel_write(b, texture@, x as int, y as int) =~= framebuffer@);
                        assert(fbx + column_writes(b, texture@, x as int, y + 1) =~= framebuffer@);
                    }
                    y = y + 1;
                }
                proof {
                    assert(fb0 + box_writes(b, texture@, x + 1) =~= framebuffer@);
                }
                x = x + 1;
            }
        },
    }
}

/// An actor more than half the field of view off the heading is never drawn,
/// whatever its distance.
pub proof fn lemma_outside_view_not_drawn(
    player: Player,
    enemy: Enemy,
    bearing: int,
    texture: Seq<Color>,
    width: int,
    height: int,
)
    requires
        2 * wrap(bearing - player.a) > player.fov || -2 * wrap(bearing - player.a) > player.fov,
    ensures
        sprite_box(player, enemy, bearing, width, height) is None,
        sprite_writes(player, enemy, bearing, texture, width, height) == Seq::<PixelWrite>::empty(),
{
}

/// The near and far planes are themselves in range: an actor in view at
/// exactly either distance is projected, not culled.
pub proof fn lemma_plane_distances_kept(player: Player, enemy: Enemy, bearing: int, width: int, height: int)
    requires
        dist_sq(player.pos, enemy.pos) == (NEAR_PLANE * UNIT) * (NEAR_PLANE * UNIT)
            || dist_sq(player.pos, enemy.pos) == (FAR_PLANE * UNIT) * (FAR_PLANE * UNIT),
        2 * wrap(bearing - player.a) <= player.fov,
        -2 * wrap(bearing - player.a) <= player.fov,
    ensures
        sprite_box(player, enemy, bearing, width, height) is Some,
{
    assert(NEAR_PLANE * UNIT == 5_000_000);
    assert(FAR_PLANE * UNIT == 100_000_000);
    assert(!out_of_range(dist_sq(player.pos, enemy.pos)));
}

/// An actor standing exactly where the player stands is nearer than the near
/// plane: it is culled and nothing is written for it, whatever its bearing.
pub proof fn lemma_coincident_actor_not_drawn(
    player: Player,
    enemy: Enemy,
    bearing: int,
    texture: Seq<Color>,
    width: int,
    height: int,
)
    requires
        enemy.pos == player.pos,
    ensures
        sprite_box(player, enemy, bearing, width, height) is None,
        sprite_writes(player, enemy, bearing, texture, width, height) == Seq::<PixelWrite>::empty(),
{
    assert(dist_sq(player.pos, enemy.pos) == 0);
}

} // verus!
