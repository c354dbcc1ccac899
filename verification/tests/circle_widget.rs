use life_canvas::circle::Circle;

#[test]
fn circle_keeps_its_radius() {
    let circle = Circle::new(50);
    assert_eq!(circle.radius, 50);
}

#[test]
fn circle_lays_out_as_a_square_of_its_diameter() {
    assert_eq!(Circle::new(50).side(), 100);
    assert_eq!(Circle::new(0).side(), 0);
    assert_eq!(Circle::new(u16::MAX).side(), 2 * u32::from(u16::MAX));
}
