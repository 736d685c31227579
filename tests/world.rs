use raycaster::camera::{Camera, TrigTable};
use raycaster::color::Color;
use raycaster::enemy::{update_enemies, Enemy, TurnPreference};
use raycaster::fixed::{COORD_LIMIT, FIX, TURN};
use raycaster::floor::render_floor;
use raycaster::framebuffer::Framebuffer;
use raycaster::game::{collect_items, is_caught, is_passable};
use raycaster::grid::Grid;
use raycaster::minimap::render_minimap;
use raycaster::overhead::{draw_cell, render_maze};
use raycaster::sprite::Sprite;
use raycaster::textures::TextureManager;

fn grid_of(rows: &[&str]) -> Grid {
    Grid::new(rows.iter().map(|r| r.chars().collect()).collect()).unwrap()
}

fn sine_table() -> TrigTable {
    let sines: Vec<i64> = (0..TURN)
        .map(|a| ((a as f64) * std::f64::consts::TAU / TURN as f64).sin() * FIX as f64)
        .map(|v| v.round() as i64)
        .collect();
    TrigTable::from_sines(sines).unwrap()
}

fn corridor() -> Grid {
    grid_of(&["#####", "#   #", "# # #", "#####"])
}

#[test]
fn enemy_starts_heading_east() {
    let e = Enemy::new(150 * FIX, 150 * FIX, TurnPreference::Right, 200);
    assert_eq!((e.vx, e.vy), (1, 0));
    assert_eq!(e.texture_key, 'e');
    assert_eq!(e.animation_timer, 0);
}

#[test]
fn enemy_moves_along_open_heading() {
    let g = corridor();
    let mut e = Enemy::new(150 * FIX, 150 * FIX, TurnPreference::Right, 200);
    e.update(100, &g, 100);
    // 200 units per second for 0.1 s
    assert_eq!(e.x, 170 * FIX);
    assert_eq!(e.y, 150 * FIX);
    assert_eq!((e.vx, e.vy), (1, 0));
    assert_eq!(e.animation_timer, 100);
}

#[test]
fn enemy_turns_by_preference_at_a_wall() {
    let g = grid_of(&["#####", "#   #", "#   #", "#   #", "#####"]);
    // at (350, 250) heading east, the wall is a quarter cell ahead
    let mut right = Enemy::new(380 * FIX, 250 * FIX, TurnPreference::Right, 0);
    right.update(10, &g, 100);
    // right of east is (0, -1): north, and the cell north is open
    assert_eq!((right.vx, right.vy), (0, -1));
    let mut left = Enemy::new(380 * FIX, 250 * FIX, TurnPreference::Left, 0);
    left.update(10, &g, 100);
    assert_eq!((left.vx, left.vy), (0, 1));
}

#[test]
fn enemy_turns_back_when_boxed_in() {
    let g = grid_of(&["###", "###", "###"]);
    let mut e = Enemy::new(150 * FIX, 150 * FIX, TurnPreference::Left, 0);
    e.update(10, &g, 100);
    assert_eq!((e.vx, e.vy), (-1, 0));
}

#[test]
fn enemy_takes_other_side_when_preferred_is_blocked() {
    let g = grid_of(&["###", "# #", "# #", "###"]);
    // heading east at (180, 149): east and north (y 99, row 0) are walls, south is open
    let mut e = Enemy::new(180 * FIX, 149 * FIX, TurnPreference::Right, 0);
    e.update(10, &g, 100);
    assert_eq!((e.vx, e.vy), (0, 1));
}

#[test]
fn enemy_animation_flips_after_frame_time() {
    let g = corridor();
    let mut e = Enemy::new(150 * FIX, 150 * FIX, TurnPreference::Right, 0);
    e.update(300, &g, 100);
    assert_eq!(e.texture_key, 'e');
    e.update(101, &g, 100);
    assert_eq!(e.texture_key, 'f');
    assert_eq!(e.animation_timer, 0);
    e.update(401, &g, 100);
    assert_eq!(e.texture_key, 'e');
}

#[test]
fn enemy_position_is_clamped() {
    let g = grid_of(&["   "]);
    // heading east with the next cell open: the step overshoots the coordinate range
    let mut e = Enemy::new(150 * FIX, 50 * FIX, TurnPreference::Right, 65536);
    e.update(65536, &g, 100);
    assert_eq!(e.x, COORD_LIMIT);
    // at the east edge with south off the grid it turns north, and stops at zero
    let mut e = Enemy::new(280 * FIX, 50 * FIX, TurnPreference::Left, 65536);
    e.update(65536, &g, 100);
    assert_eq!((e.vx, e.vy), (0, -1));
    assert_eq!(e.y, 0);
}

#[test]
fn update_all_enemies() {
    let g = corridor();
    let mut v = vec![
        Enemy::new(150 * FIX, 150 * FIX, TurnPreference::Right, 100),
        Enemy::new(250 * FIX, 150 * FIX, TurnPreference::Left, 200),
    ];
    update_enemies(&mut v, 100, &g, 100);
    assert_eq!(v[0].x, 160 * FIX);
    assert_eq!(v[1].x, 270 * FIX);
}

#[test]
fn pickup_removes_near_items_and_scores() {
    let mut items = vec![
        Sprite { x: 100 * FIX, y: 100 * FIX, texture: 'c' },
        Sprite { x: 500 * FIX, y: 100 * FIX, texture: 'h' },
        Sprite { x: 120 * FIX, y: 100 * FIX, texture: 'n' },
        Sprite { x: 100 * FIX, y: 134 * FIX, texture: 'f' },
        Sprite { x: 100 * FIX, y: 135 * FIX, texture: 'f' },
    ];
    let s = collect_items(&mut items, 100 * FIX, 100 * FIX);
    assert_eq!(s, 2);
    assert_eq!(items.len(), 2);
    assert_eq!(items[0].x, 500 * FIX);
    assert_eq!(items[1].y, 135 * FIX);
}

#[test]
fn caught_by_near_enemy() {
    let v = vec![
        Enemy::new(500 * FIX, 500 * FIX, TurnPreference::Right, 0),
        Enemy::new(124 * FIX, 100 * FIX, TurnPreference::Left, 0),
    ];
    assert!(is_caught(&v, 100 * FIX, 100 * FIX));
    assert!(!is_caught(&v, 100 * FIX, 200 * FIX));
    assert!(!is_caught(&vec![], 0, 0));
}

#[test]
fn passable_cells() {
    let g = corridor();
    assert!(is_passable(&g, 150 * FIX, 150 * FIX, 100));
    assert!(!is_passable(&g, 250 * FIX, 250 * FIX, 100));
    assert!(!is_passable(&g, 50 * FIX, 150 * FIX, 100));
    assert!(!is_passable(&g, 900 * FIX, 150 * FIX, 100));
}

#[test]
fn floor_is_lit_linearly() {
    let mut fb = Framebuffer::new(100, 60, Color::black());
    render_floor(&mut fb, 40);
    // upper half untouched
    assert_eq!(fb.get_pixel_color(50, 10), Some(Color::black()));
    // center: full floor color
    assert_eq!(fb.get_pixel_color(50, 30), Some(Color::new(51, 25, 0, 255)));
    // halfway out: half brightness
    assert_eq!(fb.get_pixel_color(70, 30), Some(Color::new(25, 12, 0, 255)));
    // past the radius: dark
    assert_eq!(fb.get_pixel_color(95, 59), Some(Color::new(0, 0, 0, 255)));
}

#[test]
fn fill_rect_clips_to_buffer() {
    let mut fb = Framebuffer::new(10, 10, Color::black());
    fb.fill_rect(-2, 8, 4, 5, Color::white());
    assert_eq!(fb.get_pixel_color(0, 8), Some(Color::white()));
    assert_eq!(fb.get_pixel_color(1, 9), Some(Color::white()));
    assert_eq!(fb.get_pixel_color(2, 9), Some(Color::black()));
    assert_eq!(fb.get_pixel_color(0, 7), Some(Color::black()));
}

#[test]
fn draw_cell_skips_empty() {
    let mut fb = Framebuffer::new(20, 20, Color::black());
    draw_cell(&mut fb, 0, 0, 5, ' ');
    assert_eq!(fb.get_pixel_color(0, 0), Some(Color::black()));
    draw_cell(&mut fb, 5, 5, 5, '#');
    assert_eq!(fb.get_pixel_color(5, 5), Some(Color::new(230, 41, 55, 255)));
    assert_eq!(fb.get_pixel_color(9, 9), Some(Color::new(230, 41, 55, 255)));
    assert_eq!(fb.get_pixel_color(10, 10), Some(Color::black()));
}

#[test]
fn top_down_view_draws_walls_player_and_rays() {
    let g = grid_of(&["###", "# #", "###"]);
    let tm = TextureManager::new();
    let t = sine_table();
    let cam = Camera { x: 150 * FIX, y: 150 * FIX, angle: 0, fov: TURN / 6 };
    let mut fb = Framebuffer::new(300, 300, Color::black());
    render_maze(&mut fb, &g, 100, &cam, &t, &tm);
    assert_eq!(fb.get_pixel_color(10, 10), Some(Color::new(230, 41, 55, 255)));
    assert_eq!(fb.get_pixel_color(150, 150), Some(Color::white()));
    assert_eq!(fb.get_pixel_color(190, 150), Some(Color::white()));
    assert_eq!(fb.get_pixel_color(120, 150), Some(Color::black()));
}

#[test]
fn minimap_in_top_right_corner() {
    let g = grid_of(&["###", "# #", "###"]);
    let t = sine_table();
    let cam = Camera { x: 150 * FIX, y: 150 * FIX, angle: 0, fov: TURN / 6 };
    let mut fb = Framebuffer::new(200, 100, Color::black());
    render_minimap(&mut fb, &g, &cam, &t, 100, 200);
    // map is 45 pixels wide: from x = 145, cells of 15 pixels, from y = 10
    let gray = Color::new(100, 100, 100, 180);
    let yellow = Color::new(253, 249, 0, 255);
    assert_eq!(fb.get_pixel_color(145, 10), Some(gray));
    assert_eq!(fb.get_pixel_color(144, 10), Some(Color::black()));
    assert_eq!(fb.get_pixel_color(189, 54), Some(gray));
    // camera marker at (145 + 22, 10 + 22), heading line to the east
    assert_eq!(fb.get_pixel_color(167, 32), Some(yellow));
    assert_eq!(fb.get_pixel_color(182, 32), Some(yellow));
    assert_eq!(fb.get_pixel_color(167, 36), Some(Color::black()));
}
