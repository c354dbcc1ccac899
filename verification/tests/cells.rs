use life_canvas::cell::Cell;
use life_canvas::geometry::Vector2;

#[test]
fn cluster_of_origin_is_row_major() {
    let block = Cell::cluster(Cell { i: 0, j: 0 });
    let expected: Vec<Cell> = [
        (-1, -1), (-1, 0), (-1, 1),
        (0, -1), (0, 0), (0, 1),
        (1, -1), (1, 0), (1, 1),
    ]
    .iter()
    .map(|&(i, j)| Cell { i, j })
    .collect();
    assert_eq!(block, expected);
}

#[test]
fn origin_has_eight_distinct_neighbors() {
    let cell = Cell { i: 0, j: 0 };
    let neighbors = Cell::neighbors(cell);
    assert_eq!(neighbors.len(), 8);
    for n in &neighbors {
        assert_ne!(*n, cell);
        assert!((n.i - cell.i).abs() <= 1 && (n.j - cell.j).abs() <= 1);
    }
    for a in 0..neighbors.len() {
        for b in (a + 1)..neighbors.len() {
            assert_ne!(neighbors[a], neighbors[b]);
        }
    }
}

#[test]
fn corner_of_coordinate_space_has_three_neighbors() {
    let cell = Cell { i: i64::MIN, j: i64::MIN };
    let neighbors = Cell::neighbors(cell);
    assert_eq!(neighbors.len(), 3);
    for n in &neighbors {
        assert_ne!(*n, cell);
        // saturation: nothing wraps to the far end of the range
        assert!(n.i == i64::MIN || n.i == i64::MIN + 1);
        assert!(n.j == i64::MIN || n.j == i64::MIN + 1);
    }
}

#[test]
fn edge_of_coordinate_space_has_five_neighbors() {
    let cell = Cell { i: i64::MAX, j: 0 };
    let neighbors = Cell::neighbors(cell);
    assert_eq!(neighbors.len(), 5);
}

#[test]
fn cell_at_maps_origin_to_minus_one() {
    // a point exactly at the grid origin lands in the cell whose
    // bottom-right corner it is
    assert_eq!(Cell::at(Vector2 { x: 0, y: 0 }), Cell { i: -1, j: -1 });
}

#[test]
fn cell_at_uses_ceiling_convention() {
    // one full cell span is 10 grid units = 10_000 milli
    assert_eq!(Cell::at(Vector2 { x: 10_000, y: 5_000 }), Cell { i: 0, j: 0 });
    assert_eq!(Cell::at(Vector2 { x: 10_001, y: 5_000 }), Cell { i: 0, j: 1 });
    assert_eq!(Cell::at(Vector2 { x: -1, y: -10_000 }), Cell { i: -2, j: -1 });
    assert_eq!(Cell::at(Vector2 { x: -10_001, y: 25_000 }), Cell { i: 2, j: -2 });
}

#[test]
fn cell_at_extremes_does_not_crash() {
    let c = Cell::at(Vector2 { x: i64::MIN, y: i64::MAX });
    // i64::MIN is not a multiple of the cell span, so the minus-one of the
    // ceiling convention does not shift its quotient
    assert_eq!(c.j, i64::MIN.div_euclid(10_000));
    assert_eq!(c.i, (i64::MAX - 1).div_euclid(10_000));
}
