use wirecube::geometry::cube_edges;
use wirecube::geometry::cube_vertices;
use wirecube::geometry::render_frame;
use wirecube::input::decode_arrow;
use wirecube::projector::clamp_to_screen;
use wirecube::state::RotationState;
use wirecube::HEIGHT;
use wirecube::WIDTH;

#[test]
fn decode_arrow_recognizes_the_four_keys() {
    assert_eq!(decode_arrow(27, 91, 65), Some((1, 0))); // Up
    assert_eq!(decode_arrow(27, 91, 66), Some((-1, 0))); // Down
    assert_eq!(decode_arrow(27, 91, 67), Some((0, 1))); // Right
    assert_eq!(decode_arrow(27, 91, 68), Some((0, -1))); // Left
}

#[test]
fn decode_arrow_discards_everything_else() {
    assert_eq!(decode_arrow(27, 91, 69), None);
    assert_eq!(decode_arrow(27, 91, 64), None);
    assert_eq!(decode_arrow(27, 90, 65), None);
    assert_eq!(decode_arrow(26, 91, 65), None);
    assert_eq!(decode_arrow(0, 0, 0), None);
    assert_eq!(decode_arrow(b'a', b'b', b'c'), None);
}

#[test]
fn clamp_passes_grid_points_through() {
    assert_eq!(clamp_to_screen(0, 0), (0, 0));
    assert_eq!(clamp_to_screen(40, 12), (40, 12));
    assert_eq!(clamp_to_screen(79, 23), (79, 23));
}

#[test]
fn clamp_saturates_out_of_range_points() {
    assert_eq!(clamp_to_screen(-1, 5), (0, 5));
    assert_eq!(clamp_to_screen(80, 5), (79, 5));
    assert_eq!(clamp_to_screen(5, -1), (5, 0));
    assert_eq!(clamp_to_screen(5, 24), (5, 23));
    assert_eq!(clamp_to_screen(i64::MIN, i64::MAX), (0, 23));
    assert_eq!(clamp_to_screen(i64::MAX, i64::MIN), (79, 0));
}

#[test]
fn clamp_always_lands_on_the_grid() {
    for &x in &[i64::MIN, -100, -1, 0, 1, 40, 79, 80, 1000, i64::MAX] {
        for &y in &[i64::MIN, -25, -1, 0, 12, 23, 24, i64::MAX] {
            let (px, py) = clamp_to_screen(x, y);
            assert!(px < WIDTH);
            assert!(py < HEIGHT);
        }
    }
}

#[test]
fn fresh_state_is_zero() {
    let s = RotationState::new();
    assert_eq!(s.x_tenths, 0);
    assert_eq!(s.y_tenths, 0);
}

#[test]
fn one_up_event_moves_only_the_x_axis() {
    let mut s = RotationState::new();
    s.apply_event(1, 0);
    assert_eq!(s.x_tenths, 1);
    assert_eq!(s.y_tenths, 0);
}

#[test]
fn draining_no_events_changes_nothing() {
    let mut s = RotationState::new();
    s.apply_event(3, -2);
    let before = s;
    s.apply_events(&vec![]);
    assert_eq!(s, before);
}

#[test]
fn draining_accumulates_in_order() {
    let mut s = RotationState::new();
    s.apply_events(&vec![(1, 0), (1, 0), (0, -1), (-1, 0), (0, 1)]);
    assert_eq!(s.x_tenths, 1);
    assert_eq!(s.y_tenths, 0);
    s.apply_events(&vec![(0, 1), (0, 1)]);
    assert_eq!(s.x_tenths, 1);
    assert_eq!(s.y_tenths, 2);
}

#[test]
fn derived_z_is_the_average_of_x_and_y() {
    let mut s = RotationState::new();
    assert_eq!(s.z_twentieths(), 0);
    s.apply_event(3, 5);
    // z = 0.5 * x + 0.5 * y; doubled, in twentieths of a radian: x + y.
    assert_eq!(s.z_twentieths(), 8);
}

#[test]
fn cube_has_eight_unit_vertices() {
    let v = cube_vertices();
    assert_eq!(
        v,
        vec![
            (-1, -1, -1),
            (1, -1, -1),
            (1, 1, -1),
            (-1, 1, -1),
            (-1, -1, 1),
            (1, -1, 1),
            (1, 1, 1),
            (-1, 1, 1),
        ]
    );
}

#[test]
fn cube_has_twelve_edges() {
    let e = cube_edges();
    assert_eq!(
        e,
        vec![
            (0, 1),
            (1, 2),
            (2, 3),
            (3, 0),
            (4, 5),
            (5, 6),
            (6, 7),
            (7, 4),
            (0, 4),
            (1, 5),
            (2, 6),
            (3, 7),
        ]
    );
}

// With the rotation fixed at zero, every vertex keeps its cube coordinates,
// and the projection with SCALE = 20, DISTANCE = 3, WIDTH = 80, HEIGHT = 24
// lands the eight vertices on these screen points: the back face (z = -1)
// scales by 20 / 2 = 10, the front face (z = 1) by 20 / 4 = 5, around the
// screen center (40, 12).
const ZERO_ROTATION_POINTS: [(usize, usize); 8] = [
    (30, 2),
    (50, 2),
    (50, 22),
    (30, 22),
    (35, 7),
    (45, 7),
    (45, 17),
    (35, 17),
];

const ZERO_ROTATION_GRID: [&str; 24] = [
    "                                                                                ",
    "                                                                                ",
    "                              #####################                             ",
    "                              ##                 ##                             ",
    "                              # #               # #                             ",
    "                              #  #             #  #                             ",
    "                              #   #           #   #                             ",
    "                              #    ###########    #                             ",
    "                              #    #         #    #                             ",
    "                              #    #         #    #                             ",
    "                              #    #         #    #                             ",
    "                              #    #         #    #                             ",
    "                              #    #         #    #                             ",
    "                              #    #         #    #                             ",
    "                              #    #         #    #                             ",
    "                              #    #         #    #                             ",
    "                              #    #         #    #                             ",
    "                              #    ###########    #                             ",
    "                              #   #           #   #                             ",
    "                              #  #             #  #                             ",
    "                              # #               # #                             ",
    "                              ##                 ##                             ",
    "                              #####################                             ",
    "                                                                                ",
];

#[test]
fn zero_rotation_frame_matches_the_reference_grid() {
    let points: Vec<(usize, usize)> = ZERO_ROTATION_POINTS.to_vec();
    for &(x, y) in &points {
        // The raw projected coordinates already lie on the grid, so the
        // clamp passes them through.
        assert_eq!(clamp_to_screen(x as i64, y as i64), (x, y));
    }
    let s = render_frame(&points);
    for y in 0..HEIGHT {
        let row: String = (0..WIDTH).map(|x| s.get(x, y)).collect();
        assert_eq!(row, ZERO_ROTATION_GRID[y], "row {} differs", y);
    }
}
