use maze_raycaster::{
    draw_sprite, isqrt, project_sprite, transparent_color, wrap_angle, Color, Enemy, Player,
    PixelWrite, Point, SpriteBox, PI_MICRO, TWO_PI_MICRO, UNIT,
};

const FOV: i64 = 1_047_198;

fn player() -> Player {
    Player { pos: Point { x: 1_000 * UNIT, y: 1_000 * UNIT }, a: 0, fov: FOV, health: 5 }
}

fn enemy_at(x_units: i64, y_units: i64) -> Enemy {
    Enemy { pos: Point { x: x_units * UNIT, y: y_units * UNIT }, texture_key: 'e' }
}

fn texture_with_corner(color: Color) -> Vec<Color> {
    let mut tex = vec![transparent_color(); 128 * 128];
    tex[0] = color;
    tex
}

#[test]
fn square_roots_round_down() {
    assert_eq!(isqrt(0), 0);
    assert_eq!(isqrt(1), 1);
    assert_eq!(isqrt(15), 3);
    assert_eq!(isqrt(16), 4);
    assert_eq!(isqrt(100_000_000_000_000), 10_000_000);
    assert_eq!(isqrt(u64::MAX), 4_294_967_295);
}

#[test]
fn angles_wrap_into_one_turn() {
    assert_eq!(wrap_angle(0), 0);
    assert_eq!(wrap_angle(PI_MICRO), PI_MICRO);
    assert_eq!(wrap_angle(-PI_MICRO), -PI_MICRO);
    assert_eq!(wrap_angle(PI_MICRO + 1), PI_MICRO + 1 - TWO_PI_MICRO);
    assert_eq!(wrap_angle(-PI_MICRO - 1), -PI_MICRO - 1 + TWO_PI_MICRO);
    assert_eq!(wrap_angle(7 * TWO_PI_MICRO + 5), 5);
    assert_eq!(wrap_angle(-7 * TWO_PI_MICRO - 5), -5);
}

#[test]
fn sprite_straight_ahead_is_centred() {
    let b = project_sprite(&player(), &enemy_at(1_100, 1_000), 0, 900, 600);
    assert_eq!(b, Some(SpriteBox { start_x: 240, start_y: 90, end_x: 660, end_y: 510, size: 420 }));
}

#[test]
fn sprite_pixels_sample_the_texture_and_skip_the_key() {
    let red = Color { r: 255, g: 0, b: 0, a: 255 };
    let tex = texture_with_corner(red);
    let mut fb: Vec<PixelWrite> = Vec::new();
    draw_sprite(&mut fb, &player(), &enemy_at(1_100, 1_000), 0, &tex, 900, 600);
    let mut expected = Vec::new();
    for x in 240..244u32 {
        for y in 90..94u32 {
            expected.push(PixelWrite { x, y, color: red });
        }
    }
    assert_eq!(fb, expected);
}

#[test]
fn sprite_outside_the_view_is_not_drawn() {
    let tex = vec![Color { r: 1, g: 2, b: 3, a: 255 }; 128 * 128];
    for bearing in [FOV / 2 + 1, -(FOV / 2) - 1, PI_MICRO, FOV] {
        let mut fb: Vec<PixelWrite> = Vec::new();
        draw_sprite(&mut fb, &player(), &enemy_at(1_100, 1_000), bearing, &tex, 900, 600);
        assert!(fb.is_empty());
    }
    let far_off = project_sprite(&player(), &enemy_at(1_500, 1_000), FOV, 900, 600);
    assert_eq!(far_off, None);
}

#[test]
fn sprite_at_the_view_edge_is_kept() {
    let b = project_sprite(&player(), &enemy_at(1_100, 1_000), FOV / 2, 900, 600);
    assert!(b.is_some());
}

#[test]
fn sprite_at_the_plane_distances_is_kept() {
    let near = project_sprite(&player(), &enemy_at(1_050, 1_000), 0, 900, 600);
    assert_eq!(near, Some(SpriteBox { start_x: 30, start_y: 0, end_x: 870, end_y: 600, size: 840 }));
    let far = project_sprite(&player(), &enemy_at(2_000, 1_000), 0, 900, 600);
    assert_eq!(far, Some(SpriteBox { start_x: 429, start_y: 279, end_x: 471, end_y: 321, size: 42 }));
}

#[test]
fn sprite_past_the_planes_is_culled() {
    let too_near = Enemy { pos: Point { x: 1_050 * UNIT - 1, y: 1_000 * UNIT }, texture_key: 'e' };
    assert_eq!(project_sprite(&player(), &too_near, 0, 900, 600), None);
    let too_far = Enemy { pos: Point { x: 2_000 * UNIT + 1, y: 1_000 * UNIT }, texture_key: 'e' };
    assert_eq!(project_sprite(&player(), &too_far, 0, 900, 600), None);
}

#[test]
fn actor_on_the_player_is_not_drawn() {
    let tex = vec![Color { r: 9, g: 9, b: 9, a: 255 }; 128 * 128];
    let same = Enemy { pos: player().pos, texture_key: 'e' };
    for bearing in [0, FOV / 4, PI_MICRO] {
        let mut fb: Vec<PixelWrite> = vec![PixelWrite { x: 1, y: 1, color: transparent_color() }];
        draw_sprite(&mut fb, &player(), &same, bearing, &tex, 900, 600);
        assert_eq!(fb.len(), 1);
    }
}
