use life_canvas::cell::Cell;
use life_canvas::geometry::{Size2, Vector2};
use life_canvas::grid::{Grid, MAX_SCALING, MIN_SCALING};
use life_canvas::interaction::Event;
use life_canvas::preset::Preset;

const BOUNDS: Size2 = Size2 { width: 800_000, height: 600_000 };
const CENTER: Vector2 = Vector2 { x: 400_000, y: 300_000 };

#[test]
fn fresh_grid_viewport_is_untransformed() {
    let grid = Grid::from_preset(Preset::Glider);
    assert_eq!(grid.scaling(), 1000);
    assert_eq!(grid.translation(), Vector2 { x: 0, y: 0 });
}

#[test]
fn visible_region_at_unit_scale() {
    let grid = Grid::from_preset(Preset::Glider);
    let region = grid.visible_region(BOUNDS);
    assert_eq!(region.width, 800_000);
    assert_eq!(region.height, 600_000);
    assert_eq!(region.x, -400_000);
    assert_eq!(region.y, -300_000);
}

#[test]
fn visible_region_halves_when_zoomed_in_twice() {
    let mut grid = Grid::from_preset(Preset::Glider);
    while grid.scaling() < MAX_SCALING {
        grid.handle_event(Event::WheelScrolled { y: 10_000 }, BOUNDS, Some(CENTER));
    }
    let region = grid.visible_region(BOUNDS);
    assert_eq!(grid.scaling(), 2000);
    assert_eq!(region.width, 400_000);
    assert_eq!(region.height, 300_000);
}

#[test]
fn project_center_of_viewport_hits_grid_origin() {
    let grid = Grid::from_preset(Preset::Glider);
    let p = grid.project(CENTER, BOUNDS);
    assert_eq!(p, Vector2 { x: 0, y: 0 });
    assert_eq!(Cell::at(p), Cell { i: -1, j: -1 });
}

#[test]
fn project_follows_translation() {
    let mut grid = Grid::from_preset(Preset::Glider);
    // pan by dragging with the right button: translation becomes (50, 30)
    grid.handle_event(
        Event::ButtonPressed(life_canvas::interaction::Button::Right),
        BOUNDS,
        Some(Vector2 { x: 100_000, y: 100_000 }),
    );
    grid.handle_event(Event::CursorMoved, BOUNDS, Some(Vector2 { x: 150_000, y: 130_000 }));
    assert_eq!(grid.translation(), Vector2 { x: 50_000, y: 30_000 });
    let p = grid.project(CENTER, BOUNDS);
    assert_eq!(p, Vector2 { x: -50_000, y: -30_000 });
}

#[test]
fn zoom_in_is_anchored_at_the_cursor() {
    let mut grid = Grid::from_preset(Preset::Glider);
    // a third of a wheel line: scaling grows from 1000 to 1100
    grid.zoom_at(Vector2 { x: 100_000, y: 0 }, 3000);
    assert_eq!(grid.scaling(), 1100);
    // translation moves so the grid point under the cursor stays fixed
    assert_eq!(grid.translation(), Vector2 { x: -10_000, y: 0 });
}

#[test]
fn zoom_out_stops_at_the_minimum_scaling() {
    let mut grid = Grid::from_preset(Preset::Glider);
    let mut steps = 0;
    while grid.scaling() > MIN_SCALING {
        grid.handle_event(Event::WheelScrolled { y: -10_000 }, BOUNDS, Some(CENTER));
        steps += 1;
        assert!(steps < 100, "scaling never reached its lower bound");
    }
    assert_eq!(grid.scaling(), MIN_SCALING);
    let translation = grid.translation();
    // once clamped, further zooming out changes nothing at all
    let (captured, intent) =
        grid.handle_event(Event::WheelScrolled { y: -10_000 }, BOUNDS, Some(CENTER));
    assert!(captured);
    assert_eq!(intent, None);
    assert_eq!(grid.scaling(), MIN_SCALING);
    assert_eq!(grid.translation(), translation);
}

#[test]
fn zoom_in_stops_at_the_maximum_scaling() {
    let mut grid = Grid::from_preset(Preset::Glider);
    for _ in 0..20 {
        grid.handle_event(Event::WheelScrolled { y: 10_000 }, BOUNDS, Some(CENTER));
    }
    assert_eq!(grid.scaling(), MAX_SCALING);
}

#[test]
fn large_wheel_amounts_follow_the_unclamped_formula() {
    // 53 lines up from 1.0: 1000 * (1 + 53/30) exceeds the bound, so 2.0
    let mut grid = Grid::from_preset(Preset::Glider);
    grid.handle_event(Event::WheelScrolled { y: 53_000 }, BOUNDS, Some(CENTER));
    assert_eq!(grid.scaling(), MAX_SCALING);
    // a huge wheel amount down drives the formula negative, clamped to 0.1
    grid.handle_event(Event::WheelScrolled { y: -2_000_000 }, BOUNDS, Some(CENTER));
    assert_eq!(grid.scaling(), MIN_SCALING);
}

#[test]
fn moderate_wheel_amounts_are_exact() {
    // 40 lines up from 1.0: 1000 * (30000 + 40000) / 30000 = 2333, clamped
    let mut grid = Grid::from_preset(Preset::Glider);
    grid.handle_event(Event::WheelScrolled { y: 40_000 }, BOUNDS, Some(CENTER));
    assert_eq!(grid.scaling(), 2000);
    // 10 lines down from 2.0: 2000 * (30000 - 10000) / 30000 = 1333
    grid.handle_event(Event::WheelScrolled { y: -10_000 }, BOUNDS, Some(CENTER));
    assert_eq!(grid.scaling(), 1333);
}

#[test]
fn projection_round_trip_recovers_the_cell() {
    let mut grid = Grid::from_preset(Preset::Glider);
    // pan a little so the transform is not trivial
    grid.handle_event(
        Event::ButtonPressed(life_canvas::interaction::Button::Right),
        BOUNDS,
        Some(Vector2 { x: 100_000, y: 100_000 }),
    );
    grid.handle_event(Event::CursorMoved, BOUNDS, Some(Vector2 { x: 137_000, y: 93_000 }));
    grid.handle_event(Event::ButtonReleased, BOUNDS, Some(CENTER));
    for _ in 0..8 {
        let region = grid.visible_region(BOUNDS);
        let scaling = grid.scaling();
        for frac in [5, 11, 23] {
            // a grid point inside the visible region, nudged away from the
            // cell edges the rounding tolerance excludes
            let mut gx = region.x + region.width * frac / 32 + 1_234;
            let mut gy = region.y + region.height * frac / 32 + 4_321;
            if (gx - 1).rem_euclid(10_000) < 10 {
                gx += 11;
            }
            if (gy - 1).rem_euclid(10_000) < 10 {
                gy += 11;
            }
            let px = (gx - region.x) * scaling / 1000;
            let py = (gy - region.y) * scaling / 1000;
            assert!(0 <= px && px <= BOUNDS.width && 0 <= py && py <= BOUNDS.height);
            let back = grid.project(Vector2 { x: px, y: py }, BOUNDS);
            assert_eq!(
                Cell::at(back),
                Cell::at(Vector2 { x: gx, y: gy }),
                "round trip differs at scaling {}",
                scaling,
            );
        }
        // try the next zoom level
        grid.handle_event(Event::WheelScrolled { y: -6_000 }, BOUNDS, Some(CENTER));
    }
}
