use life_canvas::cell::Cell;
use life_canvas::geometry::{Size2, Vector2};
use life_canvas::grid::Grid;
use life_canvas::interaction::{Button, Event, Intent, Interaction};
use life_canvas::preset::Preset;

const BOUNDS: Size2 = Size2 { width: 800_000, height: 600_000 };

// under the fresh viewport, the screen point over grid point (x, y)
fn over(x: i64, y: i64) -> Vector2 {
    Vector2 { x: 400_000 + x, y: 300_000 + y }
}

#[test]
fn press_on_dead_cell_starts_drawing() {
    let mut grid = Grid::from_preset(Preset::Glider);
    // grid point (95, 95) lies in cell (9, 9), which the glider leaves dead
    let (captured, intent) =
        grid.handle_event(Event::ButtonPressed(Button::Left), BOUNDS, Some(over(95_000, 95_000)));
    assert!(captured);
    assert_eq!(intent, Some(Intent::Populate(Cell { i: 9, j: 9 })));
    assert_eq!(grid.interaction(), Interaction::Drawing);
    assert!(grid.contains(&Cell { i: 9, j: 9 }));
}

#[test]
fn moving_while_drawing_populates_each_cell() {
    let mut grid = Grid::from_preset(Preset::Glider);
    grid.handle_event(Event::ButtonPressed(Button::Left), BOUNDS, Some(over(95_000, 95_000)));
    let (captured, intent) =
        grid.handle_event(Event::CursorMoved, BOUNDS, Some(over(105_000, 105_000)));
    assert!(captured);
    assert_eq!(intent, Some(Intent::Populate(Cell { i: 10, j: 10 })));
    assert_eq!(grid.interaction(), Interaction::Drawing);
    assert!(grid.contains(&Cell { i: 10, j: 10 }));
    // an already-populated cell under the cursor is reported but unchanged
    let (_, again) = grid.handle_event(Event::CursorMoved, BOUNDS, Some(over(105_000, 105_000)));
    assert_eq!(again, Some(Intent::Populate(Cell { i: 10, j: 10 })));
    assert!(grid.contains(&Cell { i: 10, j: 10 }));
}

#[test]
fn press_on_live_cell_starts_erasing() {
    let mut grid = Grid::from_preset(Preset::Glider);
    // grid point (15, 15) lies in cell (1, 1), alive in the glider
    let (captured, intent) =
        grid.handle_event(Event::ButtonPressed(Button::Left), BOUNDS, Some(over(15_000, 15_000)));
    assert!(captured);
    assert_eq!(intent, Some(Intent::Unpopulate(Cell { i: 1, j: 1 })));
    assert_eq!(grid.interaction(), Interaction::Erasing);
    assert!(!grid.contains(&Cell { i: 1, j: 1 }));
}

#[test]
fn release_always_returns_to_idle() {
    let mut grid = Grid::from_preset(Preset::Glider);
    grid.handle_event(Event::ButtonPressed(Button::Left), BOUNDS, Some(over(95_000, 95_000)));
    assert_eq!(grid.interaction(), Interaction::Drawing);
    // a release is a recognized button action, so it is consumed
    let (captured, intent) = grid.handle_event(Event::ButtonReleased, BOUNDS, Some(over(0, 0)));
    assert!(captured);
    assert_eq!(intent, None);
    assert_eq!(grid.interaction(), Interaction::Idle);
}

#[test]
fn release_outside_the_canvas_still_idles() {
    let mut grid = Grid::from_preset(Preset::Glider);
    grid.handle_event(Event::ButtonPressed(Button::Right), BOUNDS, Some(over(0, 0)));
    assert!(matches!(grid.interaction(), Interaction::Panning { .. }));
    let (captured, intent) = grid.handle_event(Event::ButtonReleased, BOUNDS, None);
    assert!(!captured);
    assert_eq!(intent, None);
    assert_eq!(grid.interaction(), Interaction::Idle);
}

#[test]
fn motion_while_idle_is_ignored() {
    let mut grid = Grid::from_preset(Preset::Glider);
    let before = grid.translation();
    let (captured, intent) = grid.handle_event(Event::CursorMoved, BOUNDS, Some(over(0, 0)));
    assert!(!captured);
    assert_eq!(intent, None);
    assert_eq!(grid.interaction(), Interaction::Idle);
    assert_eq!(grid.translation(), before);
}

#[test]
fn motion_outside_the_canvas_is_ignored() {
    let mut grid = Grid::from_preset(Preset::Glider);
    grid.handle_event(Event::ButtonPressed(Button::Left), BOUNDS, Some(over(95_000, 95_000)));
    let (captured, intent) = grid.handle_event(Event::CursorMoved, BOUNDS, None);
    assert!(!captured);
    assert_eq!(intent, None);
    // the gesture itself stays armed
    assert_eq!(grid.interaction(), Interaction::Drawing);
}

#[test]
fn right_press_starts_panning_with_anchor() {
    let mut grid = Grid::from_preset(Preset::Glider);
    let start = over(10_000, 20_000);
    let (captured, intent) =
        grid.handle_event(Event::ButtonPressed(Button::Right), BOUNDS, Some(start));
    assert!(captured);
    assert_eq!(intent, None);
    assert_eq!(
        grid.interaction(),
        Interaction::Panning { translation: Vector2 { x: 0, y: 0 }, start },
    );
}

#[test]
fn other_button_is_captured_without_effect() {
    let mut grid = Grid::from_preset(Preset::Glider);
    let (captured, intent) =
        grid.handle_event(Event::ButtonPressed(Button::Other), BOUNDS, Some(over(0, 0)));
    assert!(captured);
    assert_eq!(intent, None);
    assert_eq!(grid.interaction(), Interaction::Idle);
}

#[test]
fn grid_update_runs_one_generation() {
    let mut grid = Grid::from_preset(Preset::Glider);
    for _ in 0..4 {
        grid.update();
    }
    for (i, j) in [(0, 1), (1, 2), (2, 0), (2, 1), (2, 2)] {
        assert!(grid.contains(&Cell { i, j }));
    }
    assert!(!grid.contains(&Cell { i: -1, j: 0 }));
}

#[test]
fn grid_populate_and_unpopulate_delegate() {
    let mut grid = Grid::from_preset(Preset::Glider);
    grid.populate(Cell { i: 40, j: 40 });
    assert!(grid.contains(&Cell { i: 40, j: 40 }));
    grid.unpopulate(&Cell { i: 40, j: 40 });
    assert!(!grid.contains(&Cell { i: 40, j: 40 }));
}
