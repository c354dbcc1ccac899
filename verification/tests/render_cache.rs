use life_canvas::cell::Cell;
use life_canvas::geometry::{Size2, Vector2};
use life_canvas::grid::Grid;
use life_canvas::interaction::{Button, Event};
use life_canvas::preset::Preset;

const BOUNDS: Size2 = Size2 { width: 800_000, height: 600_000 };
const CENTER: Vector2 = Vector2 { x: 400_000, y: 300_000 };

#[test]
fn background_layer_content() {
    let mut grid = Grid::from_preset(Preset::Glider);
    let (bg, overlay) = grid.render(BOUNDS, None);
    assert_eq!(bg.size, BOUNDS);
    assert_eq!(bg.transform.center, Vector2 { x: 400_000, y: 300_000 });
    assert_eq!(bg.transform.scaling, 1000);
    assert_eq!(bg.transform.translation, Vector2 { x: 0, y: 0 });
    assert_eq!(bg.transform.cell_size, 10);
    let expected: Vec<Cell> = [(-1, 0), (0, 1), (1, -1), (1, 0), (1, 1)]
        .iter()
        .map(|&(i, j)| Cell { i, j })
        .collect();
    assert_eq!(bg.cells, expected);
    assert_eq!(overlay.size, BOUNDS);
    assert_eq!(overlay.transform, bg.transform);
    assert_eq!(overlay.hovered, None);
}

#[test]
fn render_twice_reuses_the_cache() {
    let mut grid = Grid::from_preset(Preset::Glider);
    let (first, _) = grid.render(BOUNDS, None);
    let (second, _) = grid.render(BOUNDS, None);
    assert_eq!(first, second);
}

#[test]
fn tick_forces_recomputation() {
    let mut grid = Grid::from_preset(Preset::Glider);
    let (first, _) = grid.render(BOUNDS, None);
    grid.update();
    let (second, _) = grid.render(BOUNDS, None);
    assert_ne!(first.cells, second.cells);
}

#[test]
fn populate_forces_recomputation() {
    let mut grid = Grid::from_preset(Preset::Glider);
    let (first, _) = grid.render(BOUNDS, None);
    grid.populate(Cell { i: 30, j: 30 });
    let (second, _) = grid.render(BOUNDS, None);
    assert_eq!(second.cells.len(), first.cells.len() + 1);
    assert!(second.cells.contains(&Cell { i: 30, j: 30 }));
}

#[test]
fn unpopulate_forces_recomputation() {
    let mut grid = Grid::from_preset(Preset::Glider);
    let (first, _) = grid.render(BOUNDS, None);
    grid.unpopulate(&Cell { i: 1, j: 1 });
    let (second, _) = grid.render(BOUNDS, None);
    assert_eq!(second.cells.len(), first.cells.len() - 1);
    assert!(!second.cells.contains(&Cell { i: 1, j: 1 }));
}

#[test]
fn pan_forces_recomputation() {
    let mut grid = Grid::from_preset(Preset::Glider);
    let (first, _) = grid.render(BOUNDS, None);
    grid.handle_event(Event::ButtonPressed(Button::Right), BOUNDS, Some(CENTER));
    grid.handle_event(
        Event::CursorMoved,
        BOUNDS,
        Some(Vector2 { x: 410_000, y: 300_000 }),
    );
    let (second, _) = grid.render(BOUNDS, None);
    assert_ne!(first.transform.translation, second.transform.translation);
    assert_eq!(second.transform.translation, Vector2 { x: 10_000, y: 0 });
}

#[test]
fn zoom_forces_recomputation() {
    let mut grid = Grid::from_preset(Preset::Glider);
    let (first, _) = grid.render(BOUNDS, None);
    grid.handle_event(Event::WheelScrolled { y: 3000 }, BOUNDS, Some(CENTER));
    let (second, _) = grid.render(BOUNDS, None);
    assert_eq!(first.transform.scaling, 1000);
    assert_eq!(second.transform.scaling, 1100);
}

#[test]
fn resize_forces_recomputation() {
    let mut grid = Grid::from_preset(Preset::Glider);
    let (first, _) = grid.render(BOUNDS, None);
    let smaller = Size2 { width: 400_000, height: 300_000 };
    let (second, _) = grid.render(smaller, None);
    assert_eq!(first.transform.center, Vector2 { x: 400_000, y: 300_000 });
    assert_eq!(second.transform.center, Vector2 { x: 200_000, y: 150_000 });
    assert_eq!(second.size, smaller);
}

#[test]
fn entering_a_gesture_does_not_invalidate() {
    let mut grid = Grid::from_preset(Preset::Glider);
    let (first, _) = grid.render(BOUNDS, None);
    // a right press only arms panning; nothing visible changed
    grid.handle_event(Event::ButtonPressed(Button::Right), BOUNDS, Some(CENTER));
    let (second, _) = grid.render(BOUNDS, None);
    assert_eq!(first, second);
}

#[test]
fn overlay_reports_the_hovered_cell() {
    let mut grid = Grid::from_preset(Preset::Glider);
    let (_, overlay) = grid.render(BOUNDS, Some(Vector2 { x: 495_000, y: 395_000 }));
    assert_eq!(overlay.hovered, Some(Cell { i: 9, j: 9 }));
}
