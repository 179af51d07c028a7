use maze_raycaster::{
    column_angle, fisheye_correct, impact_tint, project_column, render_world, ColumnRay, Dir,
    Intersect, Maze, Player, Point, Stake, Tint, DIR_ONE, UNIT,
};

fn maze_of(rows: &[&str]) -> Maze {
    rows.iter().map(|r| r.chars().collect()).collect()
}

#[test]
fn column_angles_sweep_the_field_of_view() {
    assert_eq!(column_angle(1_000_000, 1_047_198, 0, 900), 1_000_000 - 523_599);
    assert_eq!(column_angle(1_000_000, 1_047_198, 450, 900), 1_000_000);
    assert_eq!(column_angle(0, 1_000_000, 899, 900), -500_000 + 998_888);
}

#[test]
fn center_ray_distance_is_not_corrected() {
    assert_eq!(fisheye_correct(501, DIR_ONE), 501);
    assert_eq!(fisheye_correct(2_501, DIR_ONE), 2_501);
}

#[test]
fn fisheye_scales_by_cosine_and_keeps_a_floor() {
    assert_eq!(fisheye_correct(1_000, 5_000), 500);
    assert_eq!(fisheye_correct(1_000, 0), 1);
    assert_eq!(fisheye_correct(1_000, -3_000), 1);
    assert_eq!(fisheye_correct(1, 9_999), 1);
}

#[test]
fn wall_tints_follow_the_cell_code() {
    assert_eq!(impact_tint('+'), Tint::OrangeRed);
    assert_eq!(impact_tint('g'), Tint::Green);
    assert_eq!(impact_tint('|'), Tint::Yellow);
    assert_eq!(impact_tint(' '), Tint::Yellow);
}

#[test]
fn stake_height_from_distance() {
    let hit = Intersect { distance: 2_501, impact: '|', tx: 0 };
    let stake = project_column(&hit, 450, DIR_ONE, 600, 779);
    assert_eq!(stake, Stake { column: 450, top: 229, bottom: 371, tint: Tint::Yellow, depth: 2_501 });
}

#[test]
fn near_wall_stake_is_cut_at_the_screen() {
    let hit = Intersect { distance: 501, impact: '+', tx: 0 };
    let stake = project_column(&hit, 3, DIR_ONE, 600, 779);
    assert_eq!(stake, Stake { column: 3, top: 0, bottom: 600, tint: Tint::OrangeRed, depth: 501 });
}

#[test]
fn nothing_found_gives_an_empty_stake() {
    let hit = Intersect { distance: 200_000, impact: ' ', tx: 0 };
    let stake = project_column(&hit, 0, DIR_ONE, 600, 779);
    assert_eq!(stake.top, 300);
    assert_eq!(stake.bottom, 300);
}

#[test]
fn render_world_projects_every_column() {
    let maze = maze_of(&["|||||", "|   |", "|||||"]);
    let player = Player { pos: Point { x: 150 * UNIT, y: 150 * UNIT }, a: 0, fov: 1_047_198, health: 5 };
    let rays = vec![
        ColumnRay { dir: Dir { c: DIR_ONE, s: 0 }, cos_offset: DIR_ONE },
        ColumnRay { dir: Dir { c: DIR_ONE, s: 0 }, cos_offset: 5_000 },
    ];
    let stakes = render_world(&player, &maze, 100, &rays, 600, 779);
    assert_eq!(stakes.len(), 2);
    assert_eq!(stakes[0], Stake { column: 0, top: 229, bottom: 371, tint: Tint::Yellow, depth: 2_501 });
    assert_eq!(stakes[1].column, 1);
    assert_eq!(stakes[1].depth, 1_250);
}

#[test]
fn all_wall_grid_fills_every_column() {
    let maze = maze_of(&["+++", "+++", "+++"]);
    let player = Player { pos: Point { x: 101 * UNIT, y: 150 * UNIT }, a: 0, fov: 1_047_198, health: 5 };
    let mut rays = Vec::new();
    for k in 0..64i64 {
        let c = (k * 311) % (2 * DIR_ONE + 1) - DIR_ONE;
        let s = (k * 173) % (2 * DIR_ONE + 1) - DIR_ONE;
        rays.push(ColumnRay { dir: Dir { c, s }, cos_offset: c });
    }
    let stakes = render_world(&player, &maze, 100, &rays, 600, 779);
    assert_eq!(stakes.len(), 64);
    for st in &stakes {
        assert!(st.top < st.bottom);
        assert_eq!(st.tint, Tint::OrangeRed);
    }
}

#[test]
fn no_hit_column_stays_background_even_when_close() {
    let maze = maze_of(&[" "]);
    let player = Player { pos: Point { x: 0, y: 0 }, a: 0, fov: 1_047_198, health: 5 };
    let rays = vec![ColumnRay { dir: Dir { c: -DIR_ONE, s: 0 }, cos_offset: DIR_ONE }];
    let stakes = render_world(&player, &maze, 1, &rays, 600, 779);
    assert_eq!(stakes.len(), 1);
    assert_eq!(stakes[0].top, 300);
    assert_eq!(stakes[0].bottom, 300);
    let tall = render_world(&player, &maze, 100, &rays, 32_768, 32_768);
    assert_eq!(tall[0].top, tall[0].bottom);
}

#[test]
fn one_pixel_high_screen_still_shows_walls() {
    let maze = maze_of(&["+++", "+++", "+++"]);
    let player = Player { pos: Point { x: 150 * UNIT, y: 150 * UNIT }, a: 0, fov: 1_047_198, health: 5 };
    let rays = vec![
        ColumnRay { dir: Dir { c: DIR_ONE, s: 0 }, cos_offset: DIR_ONE },
        ColumnRay { dir: Dir { c: 0, s: -DIR_ONE }, cos_offset: 0 },
    ];
    let stakes = render_world(&player, &maze, 100, &rays, 1, 1);
    for st in &stakes {
        assert_eq!((st.top, st.bottom), (0, 1));
    }
}
