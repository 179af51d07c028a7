use maze_raycaster::{cell_at, classify, Cell, Maze, Point, UNIT};

fn maze_of(rows: &[&str]) -> Maze {
    rows.iter().map(|r| r.chars().collect()).collect()
}

#[test]
fn cell_codes_are_classified() {
    assert_eq!(classify(' '), Cell::Empty);
    assert_eq!(classify('g'), Cell::Goal);
    assert_eq!(classify('G'), Cell::Goal);
    assert_eq!(classify('s'), Cell::Start);
    assert_eq!(classify('S'), Cell::Start);
    assert_eq!(classify('+'), Cell::Wall('+'));
    assert_eq!(classify('-'), Cell::Wall('-'));
    assert_eq!(classify('|'), Cell::Wall('|'));
}

#[test]
fn positions_map_to_cells_by_truncation() {
    let m = maze_of(&["ab", "cd"]);
    assert_eq!(cell_at(&m, Point { x: 0, y: 0 }, 100), Some('a'));
    assert_eq!(cell_at(&m, Point { x: 100 * UNIT - 1, y: 0 }, 100), Some('a'));
    assert_eq!(cell_at(&m, Point { x: 100 * UNIT, y: 0 }, 100), Some('b'));
    assert_eq!(cell_at(&m, Point { x: 150 * UNIT, y: 199 * UNIT }, 100), Some('d'));
    assert_eq!(cell_at(&m, Point { x: 200 * UNIT, y: 0 }, 100), None);
    assert_eq!(cell_at(&m, Point { x: 0, y: 200 * UNIT }, 100), None);
    assert_eq!(cell_at(&m, Point { x: -1, y: 0 }, 100), None);
}
