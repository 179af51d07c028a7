use maze_raycaster::{cell_tint, render_minimap, Enemy, Maze, Player, Point, Square, Tint, UNIT};

fn maze_of(rows: &[&str]) -> Maze {
    rows.iter().map(|r| r.chars().collect()).collect()
}

fn sq(x: i64, y: i64, tint: Tint) -> Square {
    Square { x, y, size: 4, tint }
}

#[test]
fn minimap_cell_colours() {
    assert_eq!(cell_tint(' '), None);
    assert_eq!(cell_tint('-'), Some(Tint::DarkGray));
    assert_eq!(cell_tint('|'), Some(Tint::DarkGray));
    assert_eq!(cell_tint('+'), Some(Tint::Brown));
    assert_eq!(cell_tint('s'), Some(Tint::Green));
    assert_eq!(cell_tint('S'), Some(Tint::Green));
    assert_eq!(cell_tint('g'), Some(Tint::Yellow));
    assert_eq!(cell_tint('G'), Some(Tint::Yellow));
    assert_eq!(cell_tint('#'), Some(Tint::DarkBlue));
}

#[test]
fn minimap_draws_cells_then_markers() {
    let maze = maze_of(&["+-", "s "]);
    let player = Player { pos: Point { x: 150 * UNIT, y: 150 * UNIT }, a: 0, fov: 1_047_198, health: 5 };
    let enemies = vec![
        Enemy { pos: Point { x: 50 * UNIT, y: 20 * UNIT }, texture_key: 'e' },
        Enemy { pos: Point { x: 250 * UNIT, y: 20 * UNIT }, texture_key: 'e' },
    ];
    let squares = render_minimap(&maze, 100, &player, &enemies, 900);
    // Two columns of four pixels, ten from the right edge: the map starts at 882.
    assert_eq!(
        squares,
        vec![
            sq(882, 10, Tint::Brown),
            sq(886, 10, Tint::DarkGray),
            sq(882, 14, Tint::Green),
            sq(886, 14, Tint::SkyBlue),
            sq(882, 10, Tint::Orange),
        ]
    );
}
