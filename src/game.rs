use vstd::prelude::*;
use crate::angles::{wrap_angle, MAX_HEADING};
use crate::grid::{cell_code, cell_of, classify, world_fits, Cell, Dir, Maze, Point, MAX_WORLD, UNIT};
use crate::palette::Tint;
use crate::player::{lemma_walkable_valid, walkable, MoveKeys, Player, MAX_MOUSE_DX};
use crate::sprite::{dist_sq, Enemy};

verus! {

/// The hit points a player starts a level with.
pub const MAX_HEALTH: i32 = 5;

/// The heading and field of view of a new player, π/3, in microradians.
pub const START_ANGLE: i64 = 1_047_198;

/// The heading a level starts with, π/4, in microradians.
pub const LEVEL_ANGLE: i64 = 785_398;

/// The farthest spawn point of any level, in cells from the origin.
pub const SPAWN_REACH: i64 = 12;

/// Enemies may stand on empty floor and on goals.
pub open spec fn free_cell(m: Seq<Vec<char>>, x: i64, y: i64, block_size: int) -> bool {
    match cell_code(m, Point { x, y }, block_size) {
        None => false,
        Some(c) => cell_of(c) == Cell::Empty || cell_of(c) == Cell::Goal,
    }
}

/// Whether an enemy may step onto a position.
pub fn is_free_cell(maze: &Maze, x: i64, y: i64, block_size: usize) -> (r: bool)
    requires
        world_fits(maze@, block_size as int),
    ensures
        r == free_cell(maze@, x, y, block_size as int),
{
    proof {
        crate::grid::lemma_world_dims(maze@, block_size as int);
    }
    match crate::grid::cell_at(maze, Point { x, y }, block_size as i64) {
        None => false,
        Some(c) => match classify(c) {
            Cell::Empty | Cell::Goal => true,
            Cell::Start | Cell::Wall(_) => false,
        },
    }
}

/// `(i, j)`, column and row, is a cell holding `ch`.
pub open spec fn holds(m: Seq<Vec<char>>, ch: char, i: int, j: int) -> bool {
    0 <= j < m.len() && 0 <= i < m[j]@.len() && m[j]@[i] == ch
}

/// Finds the first cell holding `ch`, row by row, as `(column, row)`.
pub fn find_start_cell(maze: &Maze, ch: char) -> (r: Option<(usize, usize)>)
    ensures
        r matches Some((i, j)) ==> holds(maze@, ch, i as int, j as int) && forall|jj: int, ii: int|
            #![trigger maze@[jj]@[ii]]
            holds(maze@, ch, ii, jj) ==> jj > j || (jj == j && ii >= i),
        r is None ==> forall|jj: int, ii: int| #![trigger maze@[jj]@[ii]] !holds(maze@, ch, ii, jj),
{
    let mut j: usize = 0;
    while j < maze.len()
        invariant
            j <= maze.len(),
            forall|jj: int, ii: int| #![trigger maze@[jj]@[ii]] 0 <= jj < j ==> !holds(maze@, ch, ii, jj),
        decreases maze.len() - j,
    {
        let row = &maze[j];
        let mut i: usize = 0;
        while i < row.len()
            invariant
                j < maze.len(),
                *row == maze@[j as int],
                i <= row.len(),
                forall|jj: int, ii: int| #![trigger maze@[jj]@[ii]] 0 <= jj < j ==> !holds(maze@, ch, ii, jj),
                forall|ii: int| #![trigger maze@[j as int]@[ii]] 0 <= ii < i ==> !holds(maze@, ch, ii, j as int),
            decreases row.len() - i,
        {
            if row[i] == ch {
                return Some((i, j));
            }
            i = i + 1;
        }
        j = j + 1;
    }
    None
}

/// Which screen the application shows.
#[derive(Clone, Copy, Debug, PartialEq, Eq, Structural)]
pub enum ScreenKind {
    MainMenu,
    Game,
    Pause,
    Victory,
    Defeat,
}

/// The state of the game: the screen shown, the level, the player, the
/// enemies and the mazes of every level.
pub struct AppState {
    pub current_screen: ScreenKind,
    pub width: i32,
    pub height: i32,
    pub current_level: usize,
    pub is_playing: bool,
    pub player: Player,
    pub enemies: Vec<Enemy>,
    pub mazes: Vec<Maze>,
    pub paused: bool,
    /// The mouse cursor is free and shown; otherwise it is captured.
    pub enabled_cursor: bool,
    /// World units per cell.
    pub block_size: usize,
    pub max_health: i32,
    pub close_window: bool,
    /// The player took damage this frame.
    pub hit_frame: bool,
}

impl AppState {
    /// Every level fits the world, the level index is in range, the player
    /// and enemies stand inside the world, and the health is within bounds.
    pub open spec fn wf(&self) -> bool {
        &&& self.mazes.len() >= 1
        &&& self.current_level < self.mazes.len()
        &&& forall|l: int| 0 <= l < self.mazes.len() ==> world_fits(#[trigger] self.mazes[l]@, self.block_size as int)
        &&& self.block_size * SPAWN_REACH <= MAX_WORLD
        &&& self.player.pos.valid()
        &&& 0 < self.player.fov <= crate::angles::TWO_PI_MICRO
        &&& -MAX_HEADING <= self.player.a <= MAX_HEADING
        &&& 0 <= self.player.health <= self.max_health
        &&& self.max_health == MAX_HEALTH
        &&& forall|e: int| 0 <= e < self.enemies.len() ==> (#[trigger] self.enemies[e]).pos.valid()
    }

    /// A new game on the main menu, for a `w × h` screen, with `mazes` as its
    /// levels.
    pub fn init(w: i32, h: i32, block_size: usize, mazes: Vec<Maze>) -> (r: AppState)
        requires
            mazes.len() >= 1,
            forall|l: int| 0 <= l < mazes.len() ==> world_fits(#[trigger] mazes[l]@, block_size as int),
            block_size * SPAWN_REACH <= MAX_WORLD,
        ensures
            r.wf(),
            r.current_screen == ScreenKind::MainMenu,
            r.width == w && r.height == h,
            r.current_level == 0,
            !r.is_playing && !r.paused && r.enabled_cursor && !r.close_window && !r.hit_frame,
            r.player == (Player {
                pos: Point { x: (block_size * UNIT) as i64, y: (block_size * UNIT) as i64 },
                a: START_ANGLE,
                fov: START_ANGLE,
                health: MAX_HEALTH,
            }),
            r.enemies@.len() == 0,
            r.mazes@ == mazes@,
            r.block_size == block_size,
            r.max_health == MAX_HEALTH,
    {
        let b = block_size as i64 * UNIT;
        AppState {
            current_screen: ScreenKind::MainMenu,
            width: w,
            height: h,
            current_level: 0,
            is_playing: false,
            player: Player { pos: Point { x: b, y: b }, a: START_ANGLE, fov: START_ANGLE, health: MAX_HEALTH },
            enemies: Vec::new(),
            mazes,
            paused: false,
            enabled_cursor: true,
            block_size,
            max_health: MAX_HEALTH,
            close_window: false,
            hit_frame: false,
        }
    }

    /// The maze of the level being played.
    pub fn current_maze(&self) -> (r: &Maze)
        requires
            self.wf(),
        ensures
            *r == self.mazes[self.current_level as int],
    {
        &self.mazes[self.current_level]
    }
}

/// The centre of cell `(i, j)`, column and row, in sub-units.
pub open spec fn cell_center(i: int, j: int, block_size: int) -> Point {
    Point {
        x: ((2 * i + 1) * block_size * UNIT / 2) as i64,
        y: ((2 * j + 1) * block_size * UNIT / 2) as i64,
    }
}

/// `(i, j)` is the first cell holding `ch`, row by row.
pub open spec fn first_holding(m: Seq<Vec<char>>, ch: char, i: int, j: int) -> bool {
    &&& holds(m, ch, i, j)
    &&& forall|jj: int, ii: int| #![trigger m[jj]@[ii]] holds(m, ch, ii, jj) ==> jj > j || (jj == j && ii >= i)
}

/// The two spawn points of a level, in sub-units: cells `(11, 3)` and
/// `(7, 7)` on the first level, `(11, 3)` and `(11, 7)` on the second,
/// `(1, 11)` and `(1, 5)` on the third, and a world unit from the origin on
/// any other.
pub open spec fn spawn_points(level: int, block_size: int) -> (Point, Point) {
    let c = |i: int, j: int| Point { x: (i * block_size * UNIT) as i64, y: (j * block_size * UNIT) as i64 };
    if level == 0 {
        (c(11, 3), c(7, 7))
    } else if level == 1 {
        (c(11, 3), c(11, 7))
    } else if level == 2 {
        (c(1, 11), c(1, 5))
    } else {
        (Point { x: UNIT, y: UNIT }, Point { x: UNIT, y: UNIT })
    }
}

/// The enemies a level starts with.
pub open spec fn spawned(level: int, block_size: int) -> Seq<Enemy> {
    seq![
        Enemy { pos: spawn_points(level, block_size).0, texture_key: 'e' },
        Enemy { pos: spawn_points(level, block_size).1, texture_key: 'e' },
    ]
}

/// The unit steps an enemy may take, indexed by a roll in `[0, 4)`: right,
/// left, down, up.
pub open spec fn step_dir(roll: int) -> (int, int) {
    if roll == 0 {
        (1, 0)
    } else if roll == 1 {
        (-1, 0)
    } else if roll == 2 {
        (0, 1)
    } else {
        (0, -1)
    }
}

/// An enemy's stride, a tenth of a cell, in sub-units.
pub open spec fn stride(block_size: int) -> int {
    block_size * UNIT / 10
}

/// Where an enemy at `p` ends up after tries `[t, 4)` with `rolls`: the first
/// try whose stride lands on a free cell is taken, and the rest are skipped.
pub open spec fn wander(m: Seq<Vec<char>>, p: Point, rolls: Seq<usize>, t: int, block_size: int) -> Point
    decreases 4 - t,
{
    if t >= 4 {
        p
    } else {
        let (dx, dy) = step_dir(rolls[t] as int);
        let nx = p.x + dx * stride(block_size);
        let ny = p.y + dy * stride(block_size);
        if free_cell(m, nx as i64, ny as i64, block_size) {
            Point { x: nx as i64, y: ny as i64 }
        } else {
            wander(m, p, rolls, t + 1, block_size)
        }
    }
}

/// The number of enemies among `[0, n)` within `reach` of `p`.
pub open spec fn near_count(enemies: Seq<Enemy>, p: Point, reach: int, n: int) -> int
    decreases n,
{
    if n <= 0 {
        0
    } else {
        near_count(enemies, p, reach, n - 1) + if dist_sq(enemies[n - 1].pos, p) <= reach * reach {
            1int
        } else {
            0
        }
    }
}

/// Buttons clicked and keys pressed on the current screen this frame.
#[derive(Clone, Copy, Debug, PartialEq, Eq, Structural)]
pub struct UiInput {
    pub escape: bool,
    pub level_clicked: Option<usize>,
    pub play: bool,
    pub quit: bool,
    pub resume: bool,
    pub menu: bool,
    pub next: bool,
    pub restart: bool,
}

/// What the frame driver does with the mouse cursor.
#[derive(Clone, Copy, Debug, PartialEq, Eq, Structural)]
pub enum Cursor {
    Unchanged,
    /// Free and show it.
    Show,
    /// Capture and hide it.
    Hide,
    /// Capture and hide it, and move it to the middle of the window.
    HideCentered,
}

/// What a frame's input asks of the frame driver.
#[derive(Clone, Copy, Debug, PartialEq, Eq, Structural)]
pub struct Effects {
    pub cursor: Cursor,
    /// The game advances this frame: turn the player, then call `game_tick`.
    pub tick: bool,
}

impl AppState {
    /// The fields a level start leaves alone are unchanged from `self`.
    pub open spec fn same_frame(&self, other: &AppState) -> bool {
        &&& other.width == self.width
        &&& other.height == self.height
        &&& other.mazes@ == self.mazes@
        &&& other.block_size == self.block_size
        &&& other.max_health == self.max_health
    }

    /// `after` is `self` with level `level` started: playing, not
    /// paused, cursor captured, full health, the player at the centre of the
    /// level's first start cell (where it stood, when there is none) facing
    /// π/4, the level's enemies spawned, and the game screen up.
    pub open spec fn started(&self, level: int, after: &AppState) -> bool {
        let m = self.mazes[level]@;
        &&& self.same_frame(after)
        &&& after.current_level == level
        &&& after.close_window == self.close_window
        &&& after.hit_frame == self.hit_frame
        &&& after.is_playing && !after.paused && !after.enabled_cursor
        &&& after.player.health == self.max_health
        &&& after.player.a == LEVEL_ANGLE
        &&& after.player.fov == self.player.fov
        &&& (exists|i: int, j: int| first_holding(m, 's', i, j) && after.player.pos == cell_center(i, j, self.block_size as int))
            || ((forall|jj: int, ii: int| #![trigger m[jj]@[ii]] !holds(m, 's', ii, jj)) && after.player.pos == self.player.pos)
        &&& after.enemies@ == spawned(level, self.block_size as int)
        &&& after.current_screen == ScreenKind::Game
    }

    /// Replaces the enemies with the current level's two.
    pub fn spawn_enemies_for_level(&mut self)
        requires
            old(self).wf(),
        ensures
            final(self).wf(),
            final(self).enemies@ == spawned(old(self).current_level as int, old(self).block_size as int),
            final(self).player == old(self).player,
            final(self).current_level == old(self).current_level,
            final(self).current_screen == old(self).current_screen,
            final(self).is_playing == old(self).is_playing,
            final(self).paused == old(self).paused,
            final(self).enabled_cursor == old(self).enabled_cursor,
            final(self).close_window == old(self).close_window,
            final(self).hit_frame == old(self).hit_frame,
            old(self).same_frame(&*final(self)),
    {
        let b = self.block_size as i64 * UNIT;
        let (first, second) = if self.current_level == 0 {
            (Point { x: 11 * b, y: 3 * b }, Point { x: 7 * b, y: 7 * b })
        } else if self.current_level == 1 {
            (Point { x: 11 * b, y: 3 * b }, Point { x: 11 * b, y: 7 * b })
        } else if self.current_level == 2 {
            (Point { x: 1 * b, y: 11 * b }, Point { x: 1 * b, y: 5 * b })
        } else {
            (Point { x: UNIT, y: UNIT }, Point { x: UNIT, y: UNIT })
        };
        let mut es: Vec<Enemy> = Vec::new();
        es.push(Enemy { pos: first, texture_key: 'e' });
        es.push(Enemy { pos: second, texture_key: 'e' });
        assert(es@ =~= spawned(self.current_level as int, self.block_size as int));
        self.enemies = es;
    }

    /// Starts the current level: see `started`.
    pub fn start_level(&mut self)
        requires
            old(self).wf(),
        ensures
            final(self).wf(),
            old(self).started(old(self).current_level as int, &*final(self)),
    {
        self.is_playing = true;
        self.paused = false;
        self.enabled_cursor = false;
        self.player.health = self.max_health;
        let ghost m = self.mazes[self.current_level as int]@;
        proof {
            crate::grid::lemma_world_dims(m, self.block_size as int);
        }
        let found = find_start_cell(&self.mazes[self.current_level], 's');
        match found {
            Some((i, j)) => {
                proof {
                    assert(m[j as int]@.len() == crate::grid::cols(m));
                    assert((2 * i + 1) * self.block_size * UNIT <= 2 * MAX_WORLD * UNIT) by (nonlinear_arith)
                        requires
                            i < crate::grid::cols(m),
                            crate::grid::cols(m) * self.block_size <= MAX_WORLD,
                    ;
                    assert((2 * j + 1) * self.block_size * UNIT <= 2 * MAX_WORLD * UNIT) by (nonlinear_arith)
                        requires
                            j < crate::grid::rows(m),
                            crate::grid::rows(m) * self.block_size <= MAX_WORLD,
                    ;
                }
                let b = self.block_size as i64;
                self.player.pos = Point {
                    x: (2 * (i as i64) + 1) * b * UNIT / 2,
                    y: (2 * (j as i64) + 1) * b * UNIT / 2,
                };
                assert(first_holding(m, 's', i as int, j as int));
            },
            None => {},
        }
        self.player.a = LEVEL_ANGLE;
        self.spawn_enemies_for_level();
        self.current_screen = ScreenKind::Game;
    }
}

/// Free ground lies inside the world.
proof fn lemma_free_valid(m: Seq<Vec<char>>, x: i64, y: i64, block_size: int)
    requires
        world_fits(m, block_size),
        free_cell(m, x, y, block_size),
    ensures
        (Point { x, y }).valid(),
{
    assert(walkable(m, x, y, block_size));
    lemma_walkable_valid(m, x, y, block_size);
}

impl AppState {
    /// Moves each enemy one stride toward a free neighbouring cell and sets
    /// its texture for this frame. Enemy `e` tries the directions
    /// `rolls[4 * e .. 4 * e + 4]` (see `step_dir`) in order and takes the
    /// first that lands on a free cell; its texture is `'#'` when `blink`,
    /// `'e'` otherwise.
    pub fn update_enemies(&mut self, rolls: &Vec<usize>, blink: bool)
        requires
            old(self).wf(),
            rolls.len() == 4 * old(self).enemies.len(),
            forall|k: int| 0 <= k < rolls.len() ==> #[trigger] rolls[k] < 4,
        ensures
            final(self).wf(),
            final(self).enemies.len() == old(self).enemies.len(),
            forall|e: int|
                0 <= e < old(self).enemies.len() ==> #[trigger] final(self).enemies[e] == (Enemy {
                    pos: wander(
                        old(self).mazes[old(self).current_level as int]@,
                        old(self).enemies[e].pos,
                        rolls@.subrange(4 * e, 4 * e + 4),
                        0,
                        old(self).block_size as int,
                    ),
                    texture_key: if blink {
                        '#'
                    } else {
                        'e'
                    },
                }),
            final(self).player == old(self).player,
            final(self).current_level == old(self).current_level,
            final(self).current_screen == old(self).current_screen,
            final(self).is_playing == old(self).is_playing,
            final(self).paused == old(self).paused,
            final(self).enabled_cursor == old(self).enabled_cursor,
            final(self).close_window == old(self).close_window,
            final(self).hit_frame == old(self).hit_frame,
            old(self).same_frame(&*final(self)),
    {
        let ghost m = self.mazes[self.current_level as int]@;
        let ghost old_enemies = self.enemies@;
        let bs = self.block_size;
        proof {
            crate::grid::lemma_world_dims(m, bs as int);
        }
        let step: i64 = (bs as i64) * UNIT / 10;
        assert(0 <= step <= 100_000_000);
        let n = self.enemies.len();
        let mut e: usize = 0;
        while e < n
            invariant
                self.wf(),
                m == self.mazes[self.current_level as int]@,
                world_fits(m, bs as int),
                bs == self.block_size,
                1 <= bs <= MAX_WORLD,
                step == stride(bs as int),
                0 <= step <= 100_000_000,
                n == self.enemies.len(),
                n == old_enemies.len(),
                rolls.len() == 4 * n,
                forall|k: int| 0 <= k < rolls.len() ==> #[trigger] rolls[k] < 4,
                e <= n,
                forall|k: int|
                    0 <= k < e ==> #[trigger] self.enemies[k] == (Enemy {
                        pos: wander(m, old_enemies[k].pos, rolls@.subrange(4 * k, 4 * k + 4), 0, bs as int),
                        texture_key: if blink {
                            '#'
                        } else {
                            'e'
                        },
                    }),
                forall|k: int| e <= k < n ==> #[trigger] self.enemies[k] == old_enemies[k],
                self.player == old(self).player,
                self.current_level == old(self).current_level,
                self.current_screen == old(self).current_screen,
                self.is_playing == old(self).is_playing,
                self.paused == old(self).paused,
                self.enabled_cursor == old(self).enabled_cursor,
                self.close_window == old(self).close_window,
                self.hit_frame == old(self).hit_frame,
                old(self).same_frame(&*self),
            decreases n - e,
        {
            let mut enemy = self.enemies[e];
            let ghost tries = rolls@.subrange(4 * e as int, 4 * e as int + 4);
            let ghost start = enemy.pos;
            let mut t: usize = 0;
            let mut moved = false;
            while t < 4 && !moved
                invariant
                    self.wf(),
                    m == self.mazes[self.current_level as int]@,
                    world_fits(m, bs as int),
                    bs == self.block_size,
                    1 <= bs <= MAX_WORLD,
                    step == stride(bs as int),
                    0 <= step <= 100_000_000,
                    e < n,
                    rolls.len() == 4 * n,
                    forall|k: int| 0 <= k < rolls.len() ==> #[trigger] rolls[k] < 4,
                    tries == rolls@.subrange(4 * e as int, 4 * e as int + 4),
                    t <= 4,
                    start == old_enemies[e as int].pos,
                    start.valid(),
                    enemy.pos.valid(),
                    !moved ==> enemy.pos == start && wander(m, start, tries, t as int, bs as int) == wander(m, start, tries, 0, bs as int),
                    moved ==> enemy.pos == wander(m, start, tries, 0, bs as int),
                decreases 4 - t,
            {
                let roll = rolls[4 * e + t];
                assert(roll == tries[t as int]);
                let (dx, dy): (i64, i64) = if roll == 0 {
                    (1, 0)
                } else if roll == 1 {
                    (-1, 0)
                } else if roll == 2 {
                    (0, 1)
                } else {
                    (0, -1)
                };
                let nx = enemy.pos.x + dx * step;
                let ny = enemy.pos.y + dy * step;
                if is_free_cell(&self.mazes[self.current_level], nx, ny, bs) {
                    proof {
                        lemma_free_valid(m, nx, ny, bs as int);
                    }
                    enemy.pos = Point { x: nx, y: ny };
                    moved = true;
                }
                t = t + 1;
            }
            enemy.texture_key = if blink {
                '#'
            } else {
                'e'
            };
            self.enemies.set(e, enemy);
            e = e + 1;
        }
    }
}

/// The player's cell is a goal.
pub open spec fn on_goal(m: Seq<Vec<char>>, p: Point, block_size: int) -> bool {
    match cell_code(m, p, block_size) {
        None => false,
        Some(c) => cell_of(c) == Cell::Goal,
    }
}

impl AppState {
    /// The player wins by standing on a goal cell.
    pub fn is_on_goal(&self) -> (r: bool)
        requires
            self.wf(),
        ensures
            r == on_goal(self.mazes[self.current_level as int]@, self.player.pos, self.block_size as int),
    {
        proof {
            crate::grid::lemma_world_dims(self.mazes[self.current_level as int]@, self.block_size as int);
        }
        match crate::grid::cell_at(self.current_maze(), self.player.pos, self.block_size as i64) {
            None => false,
            Some(c) => classify(c) == Cell::Goal,
        }
    }

    /// The player loses a hit point for each enemy within a quarter of a
    /// cell, down to zero; `hit_frame` records that damage was taken.
    pub fn check_enemy_collisions(&mut self)
        requires
            old(self).wf(),
        ensures
            final(self).wf(),
            ({
                let hits = near_count(
                    old(self).enemies@,
                    old(self).player.pos,
                    old(self).block_size * UNIT / 4,
                    old(self).enemies.len() as int,
                );
                &&& final(self).player.health == if old(self).player.health - hits < 0 {
                    0
                } else {
                    old(self).player.health - hits
                }
                &&& final(self).hit_frame == (old(self).hit_frame || hits > 0)
            }),
            final(self).player.pos == old(self).player.pos,
            final(self).player.a == old(self).player.a,
            final(self).player.fov == old(self).player.fov,
            final(self).enemies@ == old(self).enemies@,
            final(self).current_level == old(self).current_level,
            final(self).current_screen == old(self).current_screen,
            final(self).is_playing == old(self).is_playing,
            final(self).paused == old(self).paused,
            final(self).enabled_cursor == old(self).enabled_cursor,
            final(self).close_window == old(self).close_window,
            old(self).same_frame(&*final(self)),
    {
        proof {
            crate::grid::lemma_world_dims(self.mazes[self.current_level as int]@, self.block_size as int);
        }
        let reach: i64 = (self.block_size as i64) * UNIT / 4;
        let ghost r = reach as int;
        let ghost h0 = self.player.health as int;
        let ghost hf0 = self.hit_frame;
        let n = self.enemies.len();
        let mut e: usize = 0;
        while e < n
            invariant
                self.wf(),
                n == self.enemies.len(),
                e <= n,
                0 <= reach <= 250_000_000,
                r == reach,
                self.player.pos == old(self).player.pos,
                self.player.a == old(self).player.a,
                self.player.fov == old(self).player.fov,
                self.enemies@ == old(self).enemies@,
                self.current_level == old(self).current_level,
                self.current_screen == old(self).current_screen,
                self.is_playing == old(self).is_playing,
                self.paused == old(self).paused,
                self.enabled_cursor == old(self).enabled_cursor,
                self.close_window == old(self).close_window,
                old(self).same_frame(&*self),
                h0 == old(self).player.health,
                hf0 == old(self).hit_frame,
                self.player.health == if h0 - near_count(self.enemies@, self.player.pos, r, e as int) < 0 {
                    0
                } else {
                    h0 - near_count(self.enemies@, self.player.pos, r, e as int)
                },
                self.hit_frame == (hf0 || near_count(self.enemies@, self.player.pos, r, e as int) > 0),
                near_count(self.enemies@, self.player.pos, r, e as int) >= 0,
            decreases n - e,
        {
            let ep = self.enemies[e].pos;
            let dx = ep.x - self.player.pos.x;
            let dy = ep.y - self.player.pos.y;
            proof {
                assert(0 <= dx * dx <= 1_000_000_000_000_000_000) by (nonlinear_arith)
                    requires
                        -1_000_000_000 <= dx <= 1_000_000_000,
                ;
                assert(0 <= dy * dy <= 1_000_000_000_000_000_000) by (nonlinear_arith)
                    requires
                        -1_000_000_000 <= dy <= 1_000_000_000,
                ;
                assert(reach * reach <= 62_500_000_000_000_000) by (nonlinear_arith)
                    requires
                        0 <= reach <= 250_000_000,
                ;
            }
            if dx * dx + dy * dy <= reach * reach {
                self.player.health = self.player.health - 1;
                if self.player.health < 0 {
                    self.player.health = 0;
                }
                self.hit_frame = true;
            }
            e = e + 1;
        }
    }

    /// Turns the player by the arrow keys held and the mouse's travel, then
    /// brings the heading back into `[-π, π]`: the direction faced is the
    /// turned one, and the heading never grows without bound.
    pub fn turn_player(&mut self, left: bool, right: bool, mouse_dx: i64)
        requires
            old(self).wf(),
            -MAX_MOUSE_DX <= mouse_dx <= MAX_MOUSE_DX,
        ensures
            final(self).wf(),
            crate::angles::wrapped(
                crate::player::turned(crate::angles::wrap(old(self).player.a as int), left, right, mouse_dx as int),
                final(self).player.a as int,
            ),
            final(self).player.pos == old(self).player.pos,
            final(self).player.fov == old(self).player.fov,
            final(self).player.health == old(self).player.health,
            final(self).enemies@ == old(self).enemies@,
            final(self).current_level == old(self).current_level,
            final(self).current_screen == old(self).current_screen,
            final(self).is_playing == old(self).is_playing,
            final(self).paused == old(self).paused,
            final(self).enabled_cursor == old(self).enabled_cursor,
            final(self).close_window == old(self).close_window,
            final(self).hit_frame == old(self).hit_frame,
            old(self).same_frame(&*final(self)),
    {
        self.player.a = wrap_angle(self.player.a);
        self.player.turn(left, right, mouse_dx);
        self.player.a = wrap_angle(self.player.a);
    }
}

impl AppState {
    /// The screen, level and the playing, paused, cursor and closing flags.
    pub open spec fn flags(&self) -> (ScreenKind, usize, bool, bool, bool, bool) {
        (self.current_screen, self.current_level, self.is_playing, self.paused, self.enabled_cursor, self.close_window)
    }

    /// `other` has the player, enemies and frame of `self`.
    pub open spec fn world_kept(&self, other: &AppState) -> bool {
        &&& other.player == self.player
        &&& other.enemies@ == self.enemies@
        &&& other.hit_frame == self.hit_frame
        &&& self.same_frame(other)
    }

    /// The cursor change when the cursor flag flips to `enabled`.
    pub open spec fn cursor_for(enabled: bool) -> Cursor {
        if enabled {
            Cursor::Show
        } else {
            Cursor::HideCentered
        }
    }

    fn toggle_pause(&mut self) -> (r: Cursor)
        requires
            old(self).wf(),
        ensures
            final(self).wf(),
            old(self).world_kept(&*final(self)),
            final(self).flags() == (
                old(self).current_screen,
                old(self).current_level,
                old(self).is_playing,
                !old(self).paused,
                !old(self).enabled_cursor,
                old(self).close_window,
            ),
            r == Self::cursor_for(!old(self).enabled_cursor),
    {
        self.paused = !self.paused;
        self.enabled_cursor = !self.enabled_cursor;
        if self.enabled_cursor {
            Cursor::Show
        } else {
            Cursor::HideCentered
        }
    }

    fn back_to_menu(&mut self)
        requires
            old(self).wf(),
        ensures
            final(self).wf(),
            old(self).world_kept(&*final(self)),
            final(self).flags() == (
                ScreenKind::MainMenu,
                old(self).current_level,
                false,
                false,
                true,
                old(self).close_window,
            ),
    {
        self.is_playing = false;
        self.paused = false;
        self.enabled_cursor = true;
        self.current_screen = ScreenKind::MainMenu;
    }

    /// Handles a frame's clicks and keys on the current screen.
    ///
    /// On the main menu a level button selects that level when it exists,
    /// then Play starts it or else Quit closes. In the game, Escape flips
    /// pause and cursor; the game then advances unless it is paused or not
    /// being played, in which case the pause screen comes up. On the pause
    /// screen Escape or Resume flips pause and cursor back and returns to the
    /// game, or else Menu stops play, or else Quit closes. On the victory
    /// screen Next starts the next level (the first after the last), or else
    /// Restart starts the same level again, or else Menu goes back to the main
    /// menu. On the defeat screen Restart, or else Menu, or else Quit.
    pub fn handle_input(&mut self, input: &UiInput) -> (r: Effects)
        requires
            old(self).wf(),
        ensures
            final(self).wf(),
            old(self).current_screen == ScreenKind::MainMenu ==> {
                let lvl = match input.level_clicked {
                    Some(i) => if i < old(self).mazes.len() {
                        i
                    } else {
                        old(self).current_level
                    },
                    None => old(self).current_level,
                };
                if input.play {
                    old(self).started(lvl as int, &*final(self)) && r == (Effects { cursor: Cursor::Hide, tick: false })
                } else {
                    &&& old(self).world_kept(&*final(self))
                    &&& final(self).flags() == (
                        ScreenKind::MainMenu,
                        lvl,
                        old(self).is_playing,
                        old(self).paused,
                        old(self).enabled_cursor,
                        old(self).close_window || input.quit,
                    )
                    &&& r == (Effects { cursor: Cursor::Unchanged, tick: false })
                }
            },
            old(self).current_screen == ScreenKind::Game ==> {
                let p = if input.escape {
                    !old(self).paused
                } else {
                    old(self).paused
                };
                let c = if input.escape {
                    !old(self).enabled_cursor
                } else {
                    old(self).enabled_cursor
                };
                let tick = !p && old(self).is_playing;
                &&& old(self).world_kept(&*final(self))
                &&& final(self).flags() == (
                    if tick {
                        ScreenKind::Game
                    } else {
                        ScreenKind::Pause
                    },
                    old(self).current_level,
                    old(self).is_playing,
                    p,
                    c,
                    old(self).close_window,
                )
                &&& r == (Effects {
                    cursor: if input.escape {
                        Self::cursor_for(c)
                    } else {
                        Cursor::Unchanged
                    },
                    tick,
                })
            },
            old(self).current_screen == ScreenKind::Pause ==> {
                &&& old(self).world_kept(&*final(self))
                &&& if input.escape || input.resume {
                    &&& final(self).flags() == (
                        ScreenKind::Game,
                        old(self).current_level,
                        old(self).is_playing,
                        !old(self).paused,
                        !old(self).enabled_cursor,
                        old(self).close_window,
                    )
                    &&& r == (Effects { cursor: Self::cursor_for(!old(self).enabled_cursor), tick: false })
                } else {
                    &&& final(self).flags() == (
                        if input.menu {
                            ScreenKind::MainMenu
                        } else {
                            ScreenKind::Pause
                        },
                        old(self).current_level,
                        old(self).is_playing && !input.menu,
                        old(self).paused,
                        old(self).enabled_cursor,
                        old(self).close_window || (!input.menu && input.quit),
                    )
                    &&& r == (Effects { cursor: Cursor::Unchanged, tick: false })
                }
            },
            old(self).current_screen == ScreenKind::Victory ==> {
                if input.next || input.restart {
                    let lvl = if !input.next {
                        old(self).current_level as int
                    } else if old(self).current_level + 1 < old(self).mazes.len() {
                        old(self).current_level + 1
                    } else {
                        0
                    };
                    old(self).started(lvl, &*final(self)) && r == (Effects { cursor: Cursor::Hide, tick: false })
                } else if input.menu {
                    &&& old(self).world_kept(&*final(self))
                    &&& final(self).flags() == (
                        ScreenKind::MainMenu,
                        old(self).current_level,
                        false,
                        false,
                        true,
                        old(self).close_window,
                    )
                    &&& r == (Effects { cursor: Cursor::Show, tick: false })
                } else {
                    &&& old(self).world_kept(&*final(self))
                    &&& final(self).flags() == old(self).flags()
                    &&& r == (Effects { cursor: Cursor::Unchanged, tick: false })
                }
            },
            old(self).current_screen == ScreenKind::Defeat ==> {
                if input.restart {
                    old(self).started(old(self).current_level as int, &*final(self)) && r == (Effects {
                        cursor: Cursor::Hide,
                        tick: false,
                    })
                } else if input.menu {
                    &&& old(self).world_kept(&*final(self))
                    &&& final(self).flags() == (
                        ScreenKind::MainMenu,
                        old(self).current_level,
                        false,
                        false,
                        true,
                        old(self).close_window,
                    )
                    &&& r == (Effects { cursor: Cursor::Show, tick: false })
                } else {
                    &&& old(self).world_kept(&*final(self))
                    &&& final(self).flags() == (
                        ScreenKind::Defeat,
                        old(self).current_level,
                        old(self).is_playing,
                        old(self).paused,
                        old(self).enabled_cursor,
                        old(self).close_window || input.quit,
                    )
                    &&& r == (Effects { cursor: Cursor::Unchanged, tick: false })
                }
            },
    {
        match self.current_screen {
            ScreenKind::MainMenu => {
                match input.level_clicked {
                    Some(i) => {
                        if i < self.mazes.len() {
                            self.current_level = i;
                        }
                    },
                    None => {},
                }
                if input.play {
                    self.start_level();
                    Effects { cursor: Cursor::Hide, tick: false }
                } else {
                    if input.quit {
                        self.close_window = true;
                    }
                    Effects { cursor: Cursor::Unchanged, tick: false }
                }
            },
            ScreenKind::Game => {
                let cursor = if input.escape {
                    self.toggle_pause()
                } else {
                    Cursor::Unchanged
                };
                let tick = !self.paused && self.is_playing;
                if !tick {
                    self.current_screen = ScreenKind::Pause;
                }
                Effects { cursor, tick }
            },
            ScreenKind::Pause => {
                if input.escape || input.resume {
                    let cursor = self.toggle_pause();
                    self.current_screen = ScreenKind::Game;
                    Effects { cursor, tick: false }
                } else {
                    if input.menu {
                        self.is_playing = false;
                        self.current_screen = ScreenKind::MainMenu;
                    } else if input.quit {
                        self.close_window = true;
                    }
                    Effects { cursor: Cursor::Unchanged, tick: false }
                }
            },
            ScreenKind::Victory => {
                if input.next {
                    if self.current_level + 1 < self.mazes.len() {
                        self.current_level = self.current_level + 1;
                    } else {
                        self.current_level = 0;
                    }
                    self.start_level();
                    Effects { cursor: Cursor::Hide, tick: false }
                } else if input.restart {
                    self.start_level();
                    Effects { cursor: Cursor::Hide, tick: false }
                } else if input.menu {
                    self.back_to_menu();
                    Effects { cursor: Cursor::Show, tick: false }
                } else {
                    Effects { cursor: Cursor::Unchanged, tick: false }
                }
            },
            ScreenKind::Defeat => {
                if input.restart {
                    self.start_level();
                    Effects { cursor: Cursor::Hide, tick: false }
                } else if input.menu {
                    self.back_to_menu();
                    Effects { cursor: Cursor::Show, tick: false }
                } else {
                    if input.quit {
                        self.close_window = true;
                    }
                    Effects { cursor: Cursor::Unchanged, tick: false }
                }
            },
        }
    }
}

impl AppState {
    /// Advances the game one frame: moves the player by the keys held along
    /// heading `dir`, moves the enemies (see `update_enemies`), applies
    /// enemy damage, then ends the level in victory when the player stands on
    /// a goal, or else in defeat when no hit points are left; either way play
    /// stops and the cursor is freed.
    pub fn game_tick(&mut self, keys: &MoveKeys, dir: Dir, rolls: &Vec<usize>, blink: bool) -> (r: Cursor)
        requires
            old(self).wf(),
            dir.valid(),
            rolls.len() == 4 * old(self).enemies.len(),
            forall|k: int| 0 <= k < rolls.len() ==> #[trigger] rolls[k] < 4,
        ensures
            final(self).wf(),
            ({
                let m = old(self).mazes[old(self).current_level as int]@;
                let bs = old(self).block_size as int;
                let pos = crate::player::moved(m, old(self).player.pos, *keys, dir, bs);
                let hits = near_count(final(self).enemies@, pos, bs * UNIT / 4, final(self).enemies.len() as int);
                let health = if old(self).player.health - hits < 0 {
                    0
                } else {
                    old(self).player.health - hits
                };
                let won = on_goal(m, pos, bs);
                &&& final(self).player == (Player { pos, health: health as i32, ..old(self).player })
                &&& final(self).enemies.len() == old(self).enemies.len()
                &&& forall|e: int|
                    0 <= e < old(self).enemies.len() ==> #[trigger] final(self).enemies[e] == (Enemy {
                        pos: wander(m, old(self).enemies[e].pos, rolls@.subrange(4 * e, 4 * e + 4), 0, bs),
                        texture_key: if blink {
                            '#'
                        } else {
                            'e'
                        },
                    })
                &&& final(self).hit_frame == (old(self).hit_frame || hits > 0)
                &&& old(self).same_frame(&*final(self))
                &&& if won || health == 0 {
                    &&& final(self).flags() == (
                        if won {
                            ScreenKind::Victory
                        } else {
                            ScreenKind::Defeat
                        },
                        old(self).current_level,
                        false,
                        old(self).paused,
                        true,
                        old(self).close_window,
                    )
                    &&& r == Cursor::Show
                } else {
                    final(self).flags() == old(self).flags() && r == Cursor::Unchanged
                }
            }),
    {
        proof {
            crate::grid::lemma_world_dims(self.mazes[self.current_level as int]@, self.block_size as int);
        }
        self.player.process_events(keys, dir, &self.mazes[self.current_level], self.block_size);
        self.update_enemies(rolls, blink);
        self.check_enemy_collisions();
        if self.is_on_goal() {
            self.is_playing = false;
            self.enabled_cursor = true;
            self.current_screen = ScreenKind::Victory;
            Cursor::Show
        } else if self.player.health == 0 {
            self.is_playing = false;
            self.enabled_cursor = true;
            self.current_screen = ScreenKind::Defeat;
            Cursor::Show
        } else {
            Cursor::Unchanged
        }
    }
}

/// The gap between the hearts of the health display and the screen's left
/// and bottom edges, in pixels.
pub const HUD_MARGIN: i32 = 10;

/// The font size of a heart, which is also the spacing between hearts.
pub const HEART_SIZE: i32 = 30;

/// One heart of the health display: where its glyph goes and its colour.
#[derive(Clone, Copy, Debug, PartialEq, Eq, Structural)]
pub struct HeartMark {
    pub x: i32,
    pub y: i32,
    pub tint: Tint,
}

impl AppState {
    /// The health display: one heart per hit point of the maximum, in a row
    /// along the bottom-left corner, green for each point left and dark grey
    /// for each lost.
    pub fn render_game_screen_extras(&self) -> (r: Vec<HeartMark>)
        requires
            self.wf(),
            -1_000_000 <= self.height <= 1_000_000,
        ensures
            r.len() == self.max_health,
            forall|i: int|
                0 <= i < r.len() ==> #[trigger] r[i] == (HeartMark {
                    x: (HUD_MARGIN + i * HEART_SIZE) as i32,
                    y: (self.height - HEART_SIZE - HUD_MARGIN) as i32,
                    tint: if i < self.player.health {
                        Tint::Green
                    } else {
                        Tint::DarkGray
                    },
                }),
    {
        let mut marks: Vec<HeartMark> = Vec::new();
        let y = self.height - HEART_SIZE - HUD_MARGIN;
        let mut i: i32 = 0;
        while i < self.max_health
            invariant
                self.wf(),
                0 <= i <= self.max_health,
                y == self.height - HEART_SIZE - HUD_MARGIN,
                marks.len() == i,
                forall|k: int|
                    0 <= k < i ==> #[trigger] marks[k] == (HeartMark {
                        x: (HUD_MARGIN + k * HEART_SIZE) as i32,
                        y: y,
                        tint: if k < self.player.health {
                            Tint::Green
                        } else {
                            Tint::DarkGray
                        },
                    }),
            decreases self.max_health - i,
        {
            let tint = if i < self.player.health {
                Tint::Green
            } else {
                Tint::DarkGray
            };
            marks.push(HeartMark { x: HUD_MARGIN + i * HEART_SIZE, y, tint });
            i = i + 1;
        }
        marks
    }
}

} // verus!
