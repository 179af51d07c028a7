use maze_raycaster::{cast_ray, Dir, Intersect, Maze, Pixel, Player, Point, DIR_ONE, UNIT};

fn maze_of(rows: &[&str]) -> Maze {
    rows.iter().map(|r| r.chars().collect()).collect()
}

fn player_at(x_units: i64, y_units: i64) -> Player {
    Player { pos: Point { x: x_units * UNIT, y: y_units * UNIT }, a: 0, fov: 1_047_198, health: 5 }
}

#[test]
fn center_of_walled_three_by_three_hits_right_wall() {
    let maze = maze_of(&["|||", "| |", "|||"]);
    let player = player_at(150, 150);
    let mut fb: Vec<Pixel> = Vec::new();
    let hit = cast_ray(&mut fb, &maze, &player, Dir { c: DIR_ONE, s: 0 }, 100, false);
    // 0.1 + 50 units: the first probe past x = 200.
    assert_eq!(hit, Intersect { distance: 501, impact: '|', tx: 64 });
    assert!(fb.is_empty());
}

#[test]
fn ray_leaving_the_world_at_once_finds_nothing() {
    let maze = maze_of(&["   ", "   ", "   "]);
    let player = Player { pos: Point { x: 5_000, y: 150 * UNIT }, a: 0, fov: 1_047_198, health: 5 };
    let mut fb: Vec<Pixel> = Vec::new();
    let hit = cast_ray(&mut fb, &maze, &player, Dir { c: -DIR_ONE, s: 0 }, 100, true);
    assert_eq!(hit, Intersect { distance: 200_000, impact: ' ', tx: 0 });
    assert!(fb.is_empty());
}

#[test]
fn ray_through_open_grid_runs_out_of_world() {
    let maze = maze_of(&["   ", "   ", "   "]);
    let player = player_at(150, 150);
    let mut fb: Vec<Pixel> = Vec::new();
    let hit = cast_ray(&mut fb, &maze, &player, Dir { c: 0, s: DIR_ONE }, 100, false);
    assert_eq!(hit.distance, 200_000);
    assert_eq!(hit.impact, ' ');
    assert_eq!(hit.tx, 0);
}

#[test]
fn goal_cells_let_rays_through_and_start_cells_stop_them() {
    let maze = maze_of(&["|||||", "| gs|", "|||||"]);
    let player = player_at(150, 150);
    let mut fb: Vec<Pixel> = Vec::new();
    let hit = cast_ray(&mut fb, &maze, &player, Dir { c: DIR_ONE, s: 0 }, 100, false);
    assert_eq!(hit.impact, 's');
    assert_eq!(hit.distance, 1501);
}

#[test]
fn drawing_traces_each_probe_before_the_hit() {
    let maze = maze_of(&["|||", "| |", "|||"]);
    let player = player_at(195, 150);
    let mut fb: Vec<Pixel> = vec![Pixel { x: 7, y: 7 }];
    let hit = cast_ray(&mut fb, &maze, &player, Dir { c: DIR_ONE, s: 0 }, 100, true);
    assert_eq!(hit.distance, 51);
    assert_eq!(
        fb,
        vec![
            Pixel { x: 7, y: 7 },
            Pixel { x: 195, y: 150 },
            Pixel { x: 196, y: 150 },
            Pixel { x: 197, y: 150 },
            Pixel { x: 198, y: 150 },
            Pixel { x: 199, y: 150 },
        ]
    );
}

#[test]
fn texture_column_follows_the_horizontal_offset_on_a_floor_face() {
    let maze = maze_of(&["|||", "| |", "|||"]);
    let player = player_at(130, 150);
    let mut fb: Vec<Pixel> = Vec::new();
    let hit = cast_ray(&mut fb, &maze, &player, Dir { c: 0, s: DIR_ONE }, 100, false);
    // Lands at (130, 200.1): the horizontal offset 30 lies inside (1, 99).
    assert_eq!(hit, Intersect { distance: 501, impact: '|', tx: 38 });
}

#[test]
fn texture_columns_stay_below_128() {
    let maze = maze_of(&["+++++", "+   +", "+   +", "+   +", "+++++"]);
    let player = player_at(250, 250);
    let dirs = [
        (DIR_ONE, 0),
        (0, DIR_ONE),
        (-DIR_ONE, 0),
        (0, -DIR_ONE),
        (7_071, 7_071),
        (-7_071, 7_071),
        (9_659, -2_588),
        (-2_588, -9_659),
    ];
    for (c, s) in dirs {
        let mut fb: Vec<Pixel> = Vec::new();
        let hit = cast_ray(&mut fb, &maze, &player, Dir { c, s }, 100, false);
        assert_eq!(hit.impact, '+');
        assert!(hit.tx < 128);
    }
}

#[test]
fn enclosed_rays_hit_the_border_within_the_diagonal() {
    let maze = maze_of(&["#####", "#   #", "#   #", "#   #", "#####"]);
    let player = player_at(173, 311);
    let dirs = [
        (DIR_ONE, 0),
        (0, DIR_ONE),
        (-DIR_ONE, 0),
        (0, -DIR_ONE),
        (7_071, 7_071),
        (-7_071, -7_071),
        (8_660, 5_000),
        (-5_000, 8_660),
    ];
    let diagonal_sq = 2 * (500 * UNIT) * (500 * UNIT);
    for (c, s) in dirs {
        let mut fb: Vec<Pixel> = Vec::new();
        let hit = cast_ray(&mut fb, &maze, &player, Dir { c, s }, 100, false);
        assert_eq!(hit.impact, '#');
        let dx = hit.distance * c;
        let dy = hit.distance * s;
        assert!(dx * dx + dy * dy < diagonal_sq);
    }
}
