use raycaster::camera::{normalize_difference, wrap_angle, Camera, Direction, TrigTable};
use raycaster::caster::{cast_ray, cast_ray_intersect, CastError, Intersect};
use raycaster::color::Color;
use raycaster::fixed::{isqrt, FIX, HALF_TURN, QUARTER_TURN, TURN};
use raycaster::framebuffer::Framebuffer;
use raycaster::grid::Grid;
use raycaster::lighting::{brightness, shade, LIGHT_ONE};
use raycaster::projector::project_column;
use raycaster::render::{render_3d, render_column};
use raycaster::sprite::{draw_generic_sprite, render_sprites, sprite_layout, Sprite};
use raycaster::textures::{Texture, TextureManager};

fn grid_of(rows: &[&str]) -> Grid {
    Grid::new(rows.iter().map(|r| r.chars().collect()).collect()).unwrap()
}

fn enclosed_3x3() -> Grid {
    grid_of(&["###", "# #", "###"])
}

fn camera_at(px: i64, py: i64, angle: i64) -> Camera {
    Camera { x: px * FIX, y: py * FIX, angle, fov: TURN / 6 }
}

fn table() -> TrigTable {
    let sines: Vec<i64> = (0..TURN)
        .map(|a| ((a as f64) * std::f64::consts::TAU / TURN as f64).sin() * FIX as f64)
        .map(|v| v.round() as i64)
        .collect();
    TrigTable::from_sines(sines).unwrap()
}

fn solid(width: u32, height: u32, c: Color) -> Texture {
    Texture::new(width, height, vec![c; (width * height) as usize]).unwrap()
}

#[test]
fn scenario_center_of_enclosed_grid_hits_border() {
    let g = enclosed_3x3();
    let cam = camera_at(150, 150, 0);
    let tm = TextureManager::new();
    let r = cast_ray_intersect(&g, &cam, Direction { dx: FIX, dy: 0 }, 100, &tm).unwrap();
    // the inner face of the east wall lies half a tile from the center
    assert_eq!(r.distance, 50);
    assert_eq!(r.impact, '#');
    // hit at offset (0, 50): the x offset is on the border, so y is used
    assert_eq!(r.tx, 50 * 128 / 100);
}

#[test]
fn wall_at_known_distance_along_axes() {
    let g = grid_of(&["#######", "#     #", "#     #", "#######"]);
    let tm = TextureManager::new();
    for (cx, d) in [(150i64, 0i64), (210, 1), (333, 2)] {
        let cam = camera_at(cx, 150, 0);
        let r = cast_ray_intersect(&g, &cam, Direction { dx: FIX, dy: 0 }, 100, &tm).unwrap();
        let expected = 600 - cx;
        assert!((r.distance as i64 - expected).abs() <= 1, "{} {}", r.distance, d);
        assert_eq!(r.impact, '#');
        let r = cast_ray_intersect(&g, &cam, Direction { dx: -FIX, dy: 0 }, 100, &tm).unwrap();
        assert!((r.distance as i64 - (cx - 99)).abs() <= 1);
        let r = cast_ray_intersect(&g, &cam, Direction { dx: 0, dy: FIX }, 100, &tm).unwrap();
        assert!((r.distance as i64 - 150).abs() <= 1);
    }
}

#[test]
fn diagonal_ray_hits_the_right_tag() {
    let g = grid_of(&["+----", "|   |", "|   |", "|   |", "+---+"]);
    let tm = TextureManager::new();
    let t = table();
    let cam = camera_at(150, 150, 0);
    let r = cast_ray_intersect(&g, &cam, t.direction(TURN / 8), 100, &tm).unwrap();
    // 45° from (150,150): reaches the corner cell (4,4) near x = y = 400
    assert_eq!(r.impact, '+');
    assert!((r.distance as i64 - 354).abs() <= 2, "{}", r.distance);
}

#[test]
fn texture_u_stays_in_texture() {
    let g = grid_of(&["#####", "#   #", "#   #", "#####"]);
    let mut tm = TextureManager::new();
    tm.insert('#', solid(37, 5, Color::white()));
    let t = table();
    let cam = camera_at(213, 171, 0);
    for a in (0..TURN).step_by(997) {
        let r = cast_ray_intersect(&g, &cam, t.direction(a), 100, &tm).unwrap();
        assert!(r.tx < 37);
    }
}

#[test]
fn resolving_twice_is_identical() {
    let g = grid_of(&["#####", "#   #", "# # #", "#####"]);
    let tm = TextureManager::new();
    let t = table();
    let cam = camera_at(120, 140, 1234);
    for a in [0i64, 5000, 20000, 40000, 60000] {
        let d = t.direction(a);
        let r1: Result<Intersect, CastError> = cast_ray_intersect(&g, &cam, d, 100, &tm);
        let r2 = cast_ray_intersect(&g, &cam, d, 100, &tm);
        assert_eq!(r1, r2);
    }
}

#[test]
fn open_grid_reports_out_of_grid() {
    let g = grid_of(&["   ", "   "]);
    let tm = TextureManager::new();
    let cam = camera_at(50, 50, 0);
    let r = cast_ray_intersect(&g, &cam, Direction { dx: FIX, dy: 0 }, 100, &tm);
    assert_eq!(r, Err(CastError::OutOfGrid));
    let r = cast_ray_intersect(&g, &cam, Direction { dx: -FIX, dy: 0 }, 100, &tm);
    assert_eq!(r, Err(CastError::OutOfGrid));
}

#[test]
fn long_corridor_reports_step_limit() {
    // 20 cells of 65536 pixels: the far wall is more than MAX_STEPS steps away
    let mut row = vec!['#'];
    row.extend(std::iter::repeat(' ').take(18));
    row.push('#');
    let g = Grid::new(vec![row]).unwrap();
    let tm = TextureManager::new();
    let cam = Camera { x: 100_000 * FIX, y: 100 * FIX, angle: 0, fov: TURN / 6 };
    let r = cast_ray_intersect(&g, &cam, Direction { dx: FIX, dy: 0 }, 65536, &tm);
    assert_eq!(r, Err(CastError::StepLimit));
}

#[test]
fn enclosed_room_always_hits() {
    let g = grid_of(&["#####", "#   #", "# + #", "#   #", "#####"]);
    let tm = TextureManager::new();
    let t = table();
    for (cx, cy) in [(150i64, 150i64), (101, 398), (399, 101), (250, 120)] {
        let cam = camera_at(cx, cy, 0);
        for a in (0..TURN).step_by(331) {
            let r = cast_ray_intersect(&g, &cam, t.direction(a), 100, &tm).unwrap();
            assert_ne!(r.impact, ' ');
        }
    }
}

#[test]
fn cast_ray_traces_path_when_drawing() {
    let g = enclosed_3x3();
    let tm = TextureManager::new();
    let cam = camera_at(150, 150, 0);
    let mut fb = Framebuffer::new(300, 300, Color::black());
    let r = cast_ray(&mut fb, &g, &cam, Direction { dx: FIX, dy: 0 }, 100, true, &tm).unwrap();
    assert_eq!(r.distance, 50);
    assert_eq!(fb.get_pixel_color(150, 150), Some(Color::white()));
    assert_eq!(fb.get_pixel_color(199, 150), Some(Color::white()));
    assert_eq!(fb.get_pixel_color(200, 150), Some(Color::black()));
    let mut fb2 = Framebuffer::new(300, 300, Color::black());
    cast_ray(&mut fb2, &g, &cam, Direction { dx: FIX, dy: 0 }, 100, false, &tm).unwrap();
    assert_eq!(fb2.get_pixel_color(150, 150), Some(Color::black()));
}

#[test]
fn flashlight_full_at_center() {
    assert_eq!(brightness(1300, 900, 650, 450, 0, 600), LIGHT_ONE);
}

#[test]
fn flashlight_zero_outside_radius() {
    assert_eq!(brightness(1300, 900, 650 + 600, 450, 0, 600), 0);
    assert_eq!(brightness(1300, 900, 0, 0, 0, 600), 0);
    assert_eq!(brightness(1300, 900, 650, 450, 1000 * FIX, 600), 0);
}

#[test]
fn flashlight_values() {
    // halfway to the radius: (1 - 1/2)² = 1/4
    assert_eq!(brightness(1300, 900, 950, 450, 0, 600), LIGHT_ONE / 4);
    // depth halfway to the far plane: 1/2
    assert_eq!(brightness(1300, 900, 650, 450, 500 * FIX, 600), LIGHT_ONE / 2);
    // both: 1/8
    assert_eq!(brightness(1300, 900, 650, 750, 500 * FIX, 600), LIGHT_ONE / 8);
    // a 3-4-5 offset gives a whole distance of 500
    assert_eq!(brightness(1300, 900, 650 + 300, 450 + 400, 0, 600), (100 * 100 * LIGHT_ONE) / (600 * 600));
}

#[test]
fn flashlight_monotone() {
    let mut last = u64::MAX;
    for dx in 0..650u32 {
        let b = brightness(1300, 900, 650 + dx, 450, 100 * FIX, 600);
        assert!(b <= last);
        last = b;
    }
    let mut last = u64::MAX;
    for d in 0..1100i64 {
        let b = brightness(1300, 900, 700, 470, d * FIX, 600);
        assert!(b <= last);
        last = b;
    }
}

#[test]
fn shading_scales_channels() {
    let c = Color::new(200, 100, 50, 77);
    assert_eq!(shade(c, LIGHT_ONE), c);
    assert_eq!(shade(c, 0), Color::new(0, 0, 0, 77));
    assert_eq!(shade(c, LIGHT_ONE / 2), Color::new(100, 50, 25, 77));
}

#[test]
fn integer_square_root() {
    assert_eq!(isqrt(0), 0);
    assert_eq!(isqrt(1), 1);
    assert_eq!(isqrt(24), 4);
    assert_eq!(isqrt(25), 5);
    assert_eq!(isqrt(250000), 500);
    assert_eq!(isqrt((1u64 << 62) - 1), (1u64 << 31) - 1);
}

#[test]
fn fisheye_correction_equal_heights() {
    let tm = TextureManager::new();
    let a = Intersect { distance: 200, impact: '#', tx: 3 };
    let b = Intersect { distance: 400, impact: '#', tx: 3 };
    let ca = project_column(&tm, a, 1000, 5, 100, 900, 600);
    let cb = project_column(&tm, b, 500, 5, 100, 900, 600);
    assert_eq!((ca.top, ca.bottom), (cb.top, cb.bottom));
    let cc = project_column(&tm, b, 1000, 5, 100, 900, 600);
    assert!(cc.bottom - cc.top < ca.bottom - ca.top);
}

#[test]
fn column_height_and_floor() {
    let tm = TextureManager::new();
    // distance 100 straight ahead: height = 450 * 120 / 100 = 540
    let c = project_column(&tm, Intersect { distance: 100, impact: '#', tx: 0 }, FIX, 650, 1300, 900, 600);
    assert_eq!((c.top, c.bottom), (450 - 270, 450 + 270));
    assert_eq!(c.pixels.len(), 540);
    assert_eq!(c.pixels[0].0, 180);
    // distance 0 is clamped to one unit instead of dividing by zero
    let c = project_column(&tm, Intersect { distance: 0, impact: '#', tx: 0 }, FIX, 650, 1300, 900, 600);
    assert_eq!((c.top, c.bottom), (450 - 27000, 450 + 27000));
    assert_eq!(c.pixels.len(), 900);
}

#[test]
fn column_samples_texture_rows() {
    let mut tm = TextureManager::new();
    let top = Color::new(10, 20, 30, 255);
    let bottom = Color::new(200, 100, 50, 255);
    let tex = Texture::new(1, 2, vec![top, bottom]).unwrap();
    tm.insert('#', tex);
    let c = project_column(&tm, Intersect { distance: 100, impact: '#', tx: 0 }, FIX, 650, 1300, 900, 100000);
    let (y0, c0) = c.pixels[0];
    let (y1, c1) = c.pixels[c.pixels.len() - 1];
    assert_eq!(y0, 180);
    assert_eq!(y1, 719);
    assert!(c0.r <= top.r && c0.g <= top.g && c0.b <= top.b);
    assert!(c1.r > 100 && c1.r <= bottom.r);
}

#[test]
fn angles_wrap_and_normalize() {
    assert_eq!(wrap_angle(-1), TURN - 1);
    assert_eq!(wrap_angle(TURN), 0);
    assert_eq!(wrap_angle(5), 5);
    assert_eq!(normalize_difference(HALF_TURN, 0), HALF_TURN);
    assert_eq!(normalize_difference(0, HALF_TURN), HALF_TURN);
    assert_eq!(normalize_difference(TURN - 1, 0), -1);
    assert_eq!(normalize_difference(3 * TURN + 7, 2), 5);
    assert_eq!(normalize_difference(-3 * TURN, QUARTER_TURN), -QUARTER_TURN);
}

#[test]
fn trig_table_rejects_bad_input() {
    assert!(TrigTable::from_sines(vec![0; 10]).is_none());
    let mut v = vec![0i64; TURN as usize];
    v[3] = FIX + 1;
    assert!(TrigTable::from_sines(v).is_none());
    // every entry in range, but no direction reaches half a unit
    assert!(TrigTable::from_sines(vec![0i64; TURN as usize]).is_none());
    let t = table();
    assert_eq!(t.direction(0), Direction { dx: FIX, dy: 0 });
    assert_eq!(t.direction(QUARTER_TURN), Direction { dx: 0, dy: FIX });
    assert_eq!(t.cosine(-QUARTER_TURN), 0);
    assert_eq!(t.cosine(HALF_TURN), -FIX);
}

fn sprite_at(px: i64, py: i64) -> Sprite {
    Sprite { x: px * FIX, y: py * FIX, texture: 'c' }
}

#[test]
fn sprite_behind_camera_is_culled() {
    let s = sprite_at(300, 300);
    for fov in [1i64, TURN / 6, HALF_TURN - 1] {
        let cam = Camera { x: 200 * FIX, y: 300 * FIX, angle: 100, fov };
        assert_eq!(sprite_layout(&cam, &s, 100 + HALF_TURN, 1300, 900), None);
        assert_eq!(sprite_layout(&cam, &s, 100 - HALF_TURN, 1300, 900), None);
    }
}

#[test]
fn sprite_cull_at_view_edge() {
    let cam = Camera { x: 200 * FIX, y: 300 * FIX, angle: 1000, fov: 10000 };
    let s = sprite_at(300, 300);
    assert_eq!(sprite_layout(&cam, &s, 1000 + 5000 + 1, 1300, 900), None);
    assert_eq!(sprite_layout(&cam, &s, 1000 - 5000 - 1, 1300, 900), None);
    assert!(sprite_layout(&cam, &s, 1000 + 5000 - 1, 1300, 900).is_some());
    assert!(sprite_layout(&cam, &s, 1000 - 5000 + 1, 1300, 900).is_some());
    assert!(sprite_layout(&cam, &s, 1000 + 5000, 1300, 900).is_some());
}

#[test]
fn sprite_cull_by_distance_band() {
    let cam = Camera { x: 200 * FIX, y: 300 * FIX, angle: 0, fov: 10000 };
    assert_eq!(sprite_layout(&cam, &sprite_at(210, 300), 0, 1300, 900), None);
    assert_eq!(sprite_layout(&cam, &sprite_at(601, 300), 0, 1300, 900), None);
    assert!(sprite_layout(&cam, &sprite_at(220, 300), 0, 1300, 900).is_some());
    assert!(sprite_layout(&cam, &sprite_at(600, 300), 0, 1300, 900).is_some());
}

#[test]
fn sprite_layout_values() {
    let cam = Camera { x: 200 * FIX, y: 300 * FIX, angle: 0, fov: 10000 };
    let l = sprite_layout(&cam, &sprite_at(300, 300), 0, 1300, 900).unwrap();
    assert_eq!(l.dist, 100 * FIX);
    assert_eq!(l.size, 900 * 70 / 100);
    assert_eq!(l.start_x, 650 - 315);
    assert_eq!(l.start_y, 450 - 315);
    assert_eq!(l.end_x, 650 - 315 + 630);
    assert_eq!(l.end_y, 450 - 315 + 630);
}

#[test]
fn sprite_draws_lit_texels_and_skips_transparent() {
    let cam = Camera { x: 200 * FIX, y: 300 * FIX, angle: 0, fov: 10000 };
    let mut tm = TextureManager::new();
    let red = Color::new(200, 0, 0, 255);
    tm.insert('c', Texture::new(2, 1, vec![Color::new(255, 90, 40, 0), red]).unwrap());
    let bg = Color::new(1, 2, 3, 255);
    let mut fb = Framebuffer::new(1300, 900, bg);
    draw_generic_sprite(&mut fb, &cam, &sprite_at(300, 300), 0, &tm, 600);
    // left half fully transparent though its RGB is not black, right half red, lit at the center by the depth fade 0.9
    assert_eq!(fb.get_pixel_color(400, 450), Some(bg));
    let c = fb.get_pixel_color(650, 450).unwrap();
    assert_eq!(c, Color::new((200 * 58982 / 65536) as u8, 0, 0, 255));
    let mut fb2 = Framebuffer::new(1300, 900, bg);
    render_sprites(&mut fb2, &cam, &vec![sprite_at(300, 300)], &vec![HALF_TURN], &tm, 600);
    assert_eq!(fb2.get_pixel_color(650, 450), Some(bg));
}

#[test]
fn framebuffer_pixels() {
    let mut fb = Framebuffer::new(4, 3, Color::black());
    assert_eq!(fb.pixels.len(), 12);
    fb.set_pixel(3, 2, Color::white());
    fb.set_pixel(4, 0, Color::white());
    fb.set_pixel(-1, 0, Color::white());
    assert_eq!(fb.get_pixel_color(3, 2), Some(Color::white()));
    assert_eq!(fb.get_pixel_color(0, 0), Some(Color::black()));
    assert_eq!(fb.get_pixel_color(4, 0), None);
    assert_eq!(fb.get_pixel_color(0, -1), None);
    fb.set_background_color(Color::new(9, 9, 9, 9));
    fb.clear();
    assert_eq!(fb.get_pixel_color(3, 2), Some(Color::new(9, 9, 9, 9)));
}

#[test]
fn texture_service_fallbacks() {
    let mut tm = TextureManager::new();
    let a = Color::new(1, 1, 1, 1);
    let b = Color::new(2, 2, 2, 2);
    tm.insert('#', Texture::new(2, 1, vec![a, b]).unwrap());
    assert_eq!(tm.get_image_dimensions('#'), Some((2, 1)));
    assert_eq!(tm.get_image_dimensions('x'), None);
    assert_eq!(tm.dimensions('x'), (128, 128));
    assert_eq!(tm.get_pixel_color('#', 0, 0), a);
    assert_eq!(tm.get_pixel_color('#', 9, 9), b);
    assert_eq!(tm.get_pixel_color('x', 0, 0), Color::white());
    tm.insert('#', Texture::new(1, 1, vec![b]).unwrap());
    assert_eq!(tm.get_image_dimensions('#'), Some((1, 1)));
    assert_eq!(tm.entries.len(), 1);
    assert!(tm.get_texture('#').is_some());
    assert!(Texture::new(0, 1, vec![]).is_none());
    assert!(Texture::new(2, 2, vec![a]).is_none());
    assert_eq!(Texture::new(1, 1, vec![a]).unwrap().pixel(1, 0), Color::white());
}

#[test]
fn grid_must_be_rectangular() {
    assert!(Grid::new(vec![vec!['#', '#'], vec!['#']]).is_none());
    let g = grid_of(&["##", "# "]);
    assert_eq!(g.height(), 2);
    assert_eq!(g.cell(1, 1), Some(' '));
    assert_eq!(g.cell(2, 0), None);
}

#[test]
fn render_3d_draws_walls_in_the_middle_column() {
    let g = enclosed_3x3();
    let mut tm = TextureManager::new();
    tm.insert('#', solid(4, 4, Color::new(200, 200, 200, 255)));
    let t = table();
    let cam = camera_at(150, 150, 0);
    let mut fb = Framebuffer::new(64, 48, Color::black());
    render_3d(&mut fb, &g, 100, &cam, &t, &tm, 600);
    let c = render_column(&g, &cam, &t, 100, &tm, 32, 64, 48, 600);
    assert!(!c.pixels.is_empty());
    for (y, col) in c.pixels.iter() {
        assert_eq!(fb.get_pixel_color(32, *y as i32), Some(*col));
    }
    let center = fb.get_pixel_color(32, 24).unwrap();
    assert!(center.r > 150);
}
