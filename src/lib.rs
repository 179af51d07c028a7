//! A grid-maze ray-casting renderer in fixed-point arithmetic.
//!
//! World positions are integers in sub-units (`UNIT` of them per world
//! unit), direction vectors are scaled by `DIR_ONE`, and angles are in
//! microradians. Everything trigonometric is computed by the caller and
//! handed in as these integers; every decision the renderer and the game
//! rules make on them is verified here.
pub mod angles;
pub mod caster;
pub mod game;
pub mod grid;
pub mod minimap;
pub mod palette;
pub mod player;
pub mod projector;
pub mod sprite;

pub use grid::{cell_at, classify, Cell, Dir, Maze, Point, DIR_ONE, MAX_WORLD, UNIT};
pub use caster::{cast_ray, Intersect, Pixel, MAX_CELLS, TEX_SIZE};
pub use player::{can_walk_to, MoveKeys, Player, MAX_MOUSE_DX, MOUSE_SENSITIVITY, ROTATION_SPEED};
pub use palette::{transparent_color, Color, Tint};
pub use projector::{
    column_angle, fisheye_correct, impact_tint, project_column, render_world, ColumnRay, Stake,
    MAX_SCREEN, STAKE_SCALE_PERCENT,
};
pub use angles::{wrap_angle, MAX_HEADING, PI_MICRO, TWO_PI_MICRO};
pub use sprite::{
    draw_sprite, isqrt, project_sprite, Enemy, PixelWrite, SpriteBox, FAR_PLANE, NEAR_PLANE,
    SPRITE_SCALE,
};
pub use minimap::{cell_tint, render_minimap, Square, MINIMAP_CELL, MINIMAP_MARGIN};
pub use game::{
    find_start_cell, is_free_cell, AppState, Cursor, Effects, HeartMark, ScreenKind, UiInput,
    HEART_SIZE, HUD_MARGIN, LEVEL_ANGLE, MAX_HEALTH, SPAWN_REACH, START_ANGLE,
};
