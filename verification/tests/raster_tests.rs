use wirecube::raster::draw_line;
use wirecube::screen::Screen;
use wirecube::HEIGHT;
use wirecube::WIDTH;

fn marked_cells(s: &Screen) -> Vec<(usize, usize)> {
    let mut cells = Vec::new();
    for y in 0..HEIGHT {
        for x in 0..WIDTH {
            if s.get(x, y) == '#' {
                cells.push((x, y));
            }
        }
    }
    cells
}

#[test]
fn blank_screen_has_no_marks() {
    let s = Screen::new();
    assert_eq!(marked_cells(&s), vec![]);
}

#[test]
fn degenerate_line_marks_exactly_one_cell() {
    let mut s = Screen::new();
    draw_line((7, 3), (7, 3), &mut s);
    assert_eq!(marked_cells(&s), vec![(7, 3)]);
}

#[test]
fn degenerate_line_at_origin() {
    let mut s = Screen::new();
    draw_line((0, 0), (0, 0), &mut s);
    assert_eq!(marked_cells(&s), vec![(0, 0)]);
}

#[test]
fn degenerate_line_at_far_corner() {
    let mut s = Screen::new();
    draw_line((WIDTH - 1, HEIGHT - 1), (WIDTH - 1, HEIGHT - 1), &mut s);
    assert_eq!(marked_cells(&s), vec![(WIDTH - 1, HEIGHT - 1)]);
}

#[test]
fn full_horizontal_line_marks_one_row() {
    let mut s = Screen::new();
    draw_line((0, 0), (WIDTH - 1, 0), &mut s);
    let cells = marked_cells(&s);
    assert_eq!(cells.len(), WIDTH);
    let expected: Vec<(usize, usize)> = (0..WIDTH).map(|x| (x, 0)).collect();
    assert_eq!(cells, expected);
}

#[test]
fn horizontal_line_direction_does_not_matter() {
    let mut left_to_right = Screen::new();
    draw_line((10, 5), (20, 5), &mut left_to_right);
    let mut right_to_left = Screen::new();
    draw_line((20, 5), (10, 5), &mut right_to_left);
    assert_eq!(marked_cells(&left_to_right), marked_cells(&right_to_left));
    let expected: Vec<(usize, usize)> = (10..=20).map(|x| (x, 5)).collect();
    assert_eq!(marked_cells(&left_to_right), expected);
}

#[test]
fn vertical_line_marks_one_column() {
    let mut s = Screen::new();
    draw_line((4, 0), (4, HEIGHT - 1), &mut s);
    let expected: Vec<(usize, usize)> = (0..HEIGHT).map(|y| (4, y)).collect();
    assert_eq!(marked_cells(&s), expected);
}

#[test]
fn perfect_diagonal_steps_both_axes() {
    let mut s = Screen::new();
    draw_line((30, 2), (35, 7), &mut s);
    let expected: Vec<(usize, usize)> = (0..=5).map(|i| (30 + i, 2 + i)).collect();
    assert_eq!(marked_cells(&s), expected);
}

#[test]
fn steep_line_cells() {
    let mut s = Screen::new();
    draw_line((0, 0), (1, 5), &mut s);
    assert_eq!(
        marked_cells(&s),
        vec![(0, 0), (0, 1), (0, 2), (1, 3), (1, 4), (1, 5)]
    );
}

#[test]
fn shallow_line_cells() {
    let mut s = Screen::new();
    draw_line((0, 0), (5, 2), &mut s);
    assert_eq!(
        marked_cells(&s),
        vec![(0, 0), (1, 0), (2, 1), (3, 1), (4, 2), (5, 2)]
    );
}

#[test]
fn lines_accumulate_on_the_same_screen() {
    let mut s = Screen::new();
    draw_line((0, 0), (2, 0), &mut s);
    draw_line((0, 1), (0, 2), &mut s);
    assert_eq!(
        marked_cells(&s),
        vec![(0, 0), (1, 0), (2, 0), (0, 1), (0, 2)]
    );
}

#[test]
fn redrawing_a_line_changes_nothing() {
    let mut s = Screen::new();
    draw_line((3, 3), (9, 6), &mut s);
    let first = marked_cells(&s);
    draw_line((3, 3), (9, 6), &mut s);
    assert_eq!(marked_cells(&s), first);
}
