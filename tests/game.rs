use maze_raycaster::{
    can_walk_to, find_start_cell, is_free_cell, AppState, Cursor, Dir, Effects, Enemy, HeartMark,
    Maze, MoveKeys, Point, ScreenKind, Tint, UiInput, DIR_ONE, LEVEL_ANGLE, MAX_HEALTH, UNIT,
};

fn maze_of(rows: &[&str]) -> Maze {
    rows.iter().map(|r| r.chars().collect()).collect()
}

fn level() -> Maze {
    maze_of(&["+++++", "+s g+", "+   +", "+++++"])
}

fn no_input() -> UiInput {
    UiInput {
        escape: false,
        level_clicked: None,
        play: false,
        quit: false,
        resume: false,
        menu: false,
        next: false,
        restart: false,
    }
}

fn playing() -> AppState {
    let mut st = AppState::init(900, 600, 100, vec![level(), level()]);
    st.start_level();
    st
}

#[test]
fn start_cell_is_found_row_by_row() {
    let m = maze_of(&["+++", "+ s", "s++"]);
    assert_eq!(find_start_cell(&m, 's'), Some((2, 1)));
    assert_eq!(find_start_cell(&m, 'g'), None);
}

#[test]
fn walkable_and_free_cells() {
    let m = level();
    let at = |i: i64| i * UNIT;
    assert!(can_walk_to(&m, at(150), at(150), 100));
    assert!(can_walk_to(&m, at(350), at(150), 100));
    assert!(!can_walk_to(&m, at(50), at(150), 100));
    assert!(!can_walk_to(&m, -1, at(150), 100));
    assert!(!can_walk_to(&m, at(550), at(150), 100));
    assert!(is_free_cell(&m, at(250), at(250), 100));
    assert!(is_free_cell(&m, at(350), at(150), 100));
    assert!(!is_free_cell(&m, at(150), at(150), 100));
    assert!(!is_free_cell(&m, at(50), at(50), 100));
}

#[test]
fn new_game_is_on_the_main_menu() {
    let st = AppState::init(900, 600, 100, vec![level()]);
    assert_eq!(st.current_screen, ScreenKind::MainMenu);
    assert_eq!(st.player.pos, Point { x: 100 * UNIT, y: 100 * UNIT });
    assert_eq!(st.player.health, MAX_HEALTH);
    assert!(st.enemies.is_empty());
    assert!(st.enabled_cursor && !st.is_playing);
}

#[test]
fn starting_a_level_places_player_and_enemies() {
    let st = playing();
    assert_eq!(st.current_screen, ScreenKind::Game);
    assert!(st.is_playing && !st.paused && !st.enabled_cursor);
    assert_eq!(st.player.pos, Point { x: 150 * UNIT, y: 150 * UNIT });
    assert_eq!(st.player.a, LEVEL_ANGLE);
    assert_eq!(
        st.enemies,
        vec![
            Enemy { pos: Point { x: 1_100 * UNIT, y: 300 * UNIT }, texture_key: 'e' },
            Enemy { pos: Point { x: 700 * UNIT, y: 700 * UNIT }, texture_key: 'e' },
        ]
    );
}

#[test]
fn main_menu_selects_level_and_plays() {
    let mut st = AppState::init(900, 600, 100, vec![level(), level()]);
    let fx = st.handle_input(&UiInput { level_clicked: Some(7), ..no_input() });
    assert_eq!(fx, Effects { cursor: Cursor::Unchanged, tick: false });
    assert_eq!(st.current_level, 0);
    let fx = st.handle_input(&UiInput { level_clicked: Some(1), play: true, ..no_input() });
    assert_eq!(fx, Effects { cursor: Cursor::Hide, tick: false });
    assert_eq!(st.current_level, 1);
    assert_eq!(st.current_screen, ScreenKind::Game);
    assert_eq!(st.enemies[1].pos, Point { x: 1_100 * UNIT, y: 700 * UNIT });
}

#[test]
fn main_menu_quit_closes() {
    let mut st = AppState::init(900, 600, 100, vec![level()]);
    st.handle_input(&UiInput { quit: true, ..no_input() });
    assert!(st.close_window);
}

#[test]
fn escape_pauses_and_resume_returns() {
    let mut st = playing();
    let fx = st.handle_input(&no_input());
    assert_eq!(fx, Effects { cursor: Cursor::Unchanged, tick: true });
    let fx = st.handle_input(&UiInput { escape: true, ..no_input() });
    assert_eq!(fx, Effects { cursor: Cursor::Show, tick: false });
    assert!(st.paused && st.enabled_cursor);
    assert_eq!(st.current_screen, ScreenKind::Pause);
    let fx = st.handle_input(&UiInput { resume: true, ..no_input() });
    assert_eq!(fx, Effects { cursor: Cursor::HideCentered, tick: false });
    assert!(!st.paused && !st.enabled_cursor);
    assert_eq!(st.current_screen, ScreenKind::Game);
}

#[test]
fn pause_menu_stops_play() {
    let mut st = playing();
    st.handle_input(&UiInput { escape: true, ..no_input() });
    st.handle_input(&UiInput { menu: true, quit: true, ..no_input() });
    assert_eq!(st.current_screen, ScreenKind::MainMenu);
    assert!(!st.is_playing);
    assert!(!st.close_window);
}

#[test]
fn moving_forward_and_reaching_the_goal() {
    let mut st = playing();
    let keys = MoveKeys { forward: true, backward: false, right: false, left: false };
    let rolls = vec![0usize; 8];
    let cur = st.game_tick(&keys, Dir { c: DIR_ONE, s: 0 }, &rolls, false);
    assert_eq!(cur, Cursor::Unchanged);
    assert_eq!(st.player.pos, Point { x: 154 * UNIT, y: 150 * UNIT });
    st.player.pos = Point { x: 298 * UNIT, y: 150 * UNIT };
    let cur = st.game_tick(&keys, Dir { c: DIR_ONE, s: 0 }, &rolls, false);
    assert_eq!(cur, Cursor::Show);
    assert_eq!(st.current_screen, ScreenKind::Victory);
    assert!(!st.is_playing && st.enabled_cursor);
}

#[test]
fn walls_stop_movement_per_axis() {
    let mut st = playing();
    st.player.pos = Point { x: 102 * UNIT, y: 102 * UNIT };
    let keys = MoveKeys { forward: false, backward: true, right: false, left: false };
    st.game_tick(&keys, Dir { c: DIR_ONE, s: -DIR_ONE }, &vec![0usize; 8], false);
    // Back means -x (blocked by the wall at x < 100) and +y (open).
    assert_eq!(st.player.pos, Point { x: 102 * UNIT, y: 106 * UNIT });
}

#[test]
fn enemies_wander_and_blink() {
    let mut st = playing();
    st.enemies = vec![
        Enemy { pos: Point { x: 105 * UNIT, y: 205 * UNIT }, texture_key: 'e' },
        Enemy { pos: Point { x: 150 * UNIT, y: 250 * UNIT }, texture_key: 'e' },
    ];
    st.update_enemies(&vec![3, 2, 0, 1, 1, 1, 3, 0], true);
    // The first cannot go up onto the start cell, so it takes the next try: down.
    assert_eq!(st.enemies[0], Enemy { pos: Point { x: 105 * UNIT, y: 215 * UNIT }, texture_key: '#' });
    // The second: left stays in its cell, which is free.
    assert_eq!(st.enemies[1], Enemy { pos: Point { x: 140 * UNIT, y: 250 * UNIT }, texture_key: '#' });
}

#[test]
fn enemies_close_by_hurt_down_to_zero() {
    let mut st = playing();
    st.enemies = vec![
        Enemy { pos: st.player.pos, texture_key: 'e' },
        Enemy { pos: Point { x: st.player.pos.x + 25 * UNIT, y: st.player.pos.y }, texture_key: 'e' },
        Enemy { pos: Point { x: st.player.pos.x + 25 * UNIT + 1, y: st.player.pos.y }, texture_key: 'e' },
    ];
    st.check_enemy_collisions();
    assert_eq!(st.player.health, MAX_HEALTH - 2);
    assert!(st.hit_frame);
    st.player.health = 1;
    st.check_enemy_collisions();
    assert_eq!(st.player.health, 0);
}

#[test]
fn no_health_left_is_defeat() {
    let mut st = playing();
    st.player.health = 1;
    st.enemies = vec![Enemy { pos: Point { x: 250 * UNIT, y: 150 * UNIT }, texture_key: 'e' }];
    st.player.pos = Point { x: 250 * UNIT, y: 150 * UNIT };
    let keys = MoveKeys { forward: false, backward: false, right: false, left: false };
    let cur = st.game_tick(&keys, Dir { c: DIR_ONE, s: 0 }, &vec![2, 2, 2, 2], false);
    assert_eq!(cur, Cursor::Show);
    assert_eq!(st.player.health, 0);
    assert_eq!(st.current_screen, ScreenKind::Defeat);
    let fx = st.handle_input(&UiInput { restart: true, ..no_input() });
    assert_eq!(fx, Effects { cursor: Cursor::Hide, tick: false });
    assert_eq!(st.player.health, MAX_HEALTH);
    assert_eq!(st.current_screen, ScreenKind::Game);
}

#[test]
fn victory_next_wraps_to_the_first_level() {
    let mut st = playing();
    st.current_level = 1;
    st.current_screen = ScreenKind::Victory;
    st.handle_input(&UiInput { next: true, ..no_input() });
    assert_eq!(st.current_level, 0);
    assert_eq!(st.current_screen, ScreenKind::Game);
    st.current_screen = ScreenKind::Victory;
    st.handle_input(&UiInput { next: true, ..no_input() });
    assert_eq!(st.current_level, 1);
}

#[test]
fn victory_menu_frees_the_cursor() {
    let mut st = playing();
    st.current_screen = ScreenKind::Victory;
    let fx = st.handle_input(&UiInput { menu: true, ..no_input() });
    assert_eq!(fx, Effects { cursor: Cursor::Show, tick: false });
    assert_eq!(st.current_screen, ScreenKind::MainMenu);
    assert!(st.enabled_cursor && !st.is_playing && !st.paused);
}

#[test]
fn turning_keeps_heading_within_a_turn() {
    let mut st = playing();
    st.turn_player(false, true, 10);
    assert_eq!(st.player.a, LEVEL_ANGLE + 62_832 + 30_000);
    st.player.a = 3_000_000;
    st.turn_player(false, false, 100);
    assert_eq!(st.player.a, 3_300_000 - 6_283_185);
}

#[test]
fn hearts_show_health_left() {
    let mut st = playing();
    st.player.health = 2;
    let hearts = st.render_game_screen_extras();
    assert_eq!(hearts.len(), 5);
    assert_eq!(hearts[0], HeartMark { x: 10, y: 560, tint: Tint::Green });
    assert_eq!(hearts[1], HeartMark { x: 40, y: 560, tint: Tint::Green });
    assert_eq!(hearts[2], HeartMark { x: 70, y: 560, tint: Tint::DarkGray });
    assert_eq!(hearts[4], HeartMark { x: 130, y: 560, tint: Tint::DarkGray });
}
