use snaprust::tool_utils::get_line_points;

fn is_neighbour(a: (i32, i32), b: (i32, i32)) -> bool {
    let dx = (a.0 - b.0).abs();
    let dy = (a.1 - b.1).abs();
    dx <= 1 && dy <= 1 && (dx, dy) != (0, 0)
}

fn check_line(x0: i32, y0: i32, x1: i32, y1: i32) {
    let points = get_line_points(x0, y0, x1, y1);
    let dx = (x1 as i64 - x0 as i64).abs();
    let dy = (y1 as i64 - y0 as i64).abs();
    let steps = if dx >= dy { dx } else { dy };
    assert_eq!(points.len() as i64, steps + 1);
    assert_eq!(points[0], (x0, y0));
    assert_eq!(points[points.len() - 1], (x1, y1));
    for pair in points.windows(2) {
        assert!(is_neighbour(pair[0], pair[1]));
    }
}

#[test]
fn horizontal_line_has_six_points_in_order() {
    let points = get_line_points(0, 0, 5, 0);
    assert_eq!(points, vec![(0, 0), (1, 0), (2, 0), (3, 0), (4, 0), (5, 0)]);
}

#[test]
fn single_point_line() {
    assert_eq!(get_line_points(7, -3, 7, -3), vec![(7, -3)]);
}

#[test]
fn vertical_line_downwards_and_upwards() {
    assert_eq!(get_line_points(2, 1, 2, 4), vec![(2, 1), (2, 2), (2, 3), (2, 4)]);
    assert_eq!(get_line_points(2, 4, 2, 1), vec![(2, 4), (2, 3), (2, 2), (2, 1)]);
}

#[test]
fn diagonal_line() {
    assert_eq!(get_line_points(0, 0, 3, 3), vec![(0, 0), (1, 1), (2, 2), (3, 3)]);
    assert_eq!(get_line_points(0, 0, -3, 3), vec![(0, 0), (-1, 1), (-2, 2), (-3, 3)]);
}

#[test]
fn shallow_line_rounds_to_nearest_row() {
    assert_eq!(get_line_points(0, 0, 3, 1), vec![(0, 0), (1, 0), (2, 1), (3, 1)]);
    assert_eq!(
        get_line_points(0, 0, 5, 2),
        vec![(0, 0), (1, 0), (2, 1), (3, 1), (4, 2), (5, 2)]
    );
}

#[test]
fn tie_stays_on_the_nearer_side_of_the_start() {
    // Half way between two rows the line has not yet moved on.
    assert_eq!(get_line_points(0, 0, 2, 1), vec![(0, 0), (1, 0), (2, 1)]);
    assert_eq!(get_line_points(0, 0, 1, 2), vec![(0, 0), (0, 1), (1, 2)]);
}

#[test]
fn steep_line_steps_along_y() {
    assert_eq!(get_line_points(0, 0, 1, 3), vec![(0, 0), (0, 1), (1, 2), (1, 3)]);
}

#[test]
fn reversed_line_runs_from_its_own_start() {
    assert_eq!(get_line_points(5, 0, 0, 0), vec![(5, 0), (4, 0), (3, 0), (2, 0), (1, 0), (0, 0)]);
}

#[test]
fn lines_are_connected_and_end_at_their_endpoints() {
    check_line(0, 0, 17, 5);
    check_line(-4, 9, 12, -30);
    check_line(100, 100, 90, 45);
    check_line(-3, -3, -40, -2);
    check_line(0, 0, 0, 25);
    check_line(13, 8, -13, -8);
}

#[test]
fn extreme_coordinates_do_not_overflow() {
    let points = get_line_points(i32::MAX - 2, i32::MIN, i32::MAX, i32::MIN + 2);
    assert_eq!(
        points,
        vec![
            (i32::MAX - 2, i32::MIN),
            (i32::MAX - 1, i32::MIN + 1),
            (i32::MAX, i32::MIN + 2)
        ]
    );
}
