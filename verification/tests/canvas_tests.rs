use inky::{Canvas, Color, Line, Rectangle};
use inky::shapes::Drawable;

#[test]
fn vertical_line_in_order() {
    let line = Line::new((0, 0), (0, 5));
    assert_eq!(
        line.coordinates(),
        vec![(0, 0), (0, 1), (0, 2), (0, 3), (0, 4), (0, 5)]
    );
}

#[test]
fn horizontal_line_in_order() {
    let line = Line::new((0, 0), (5, 0));
    assert_eq!(
        line.coordinates(),
        vec![(0, 0), (1, 0), (2, 0), (3, 0), (4, 0), (5, 0)]
    );
}

#[test]
fn degenerate_line_single_cell() {
    let line = Line::new((3, 4), (3, 4));
    assert_eq!(line.coordinates(), vec![(3, 4)]);
}

#[test]
fn diagonal_line_hits_both_endpoints() {
    let line = Line::new((5, 5), (0, 0));
    let cells = line.coordinates();
    assert_eq!(cells.first(), Some(&(5, 5)));
    assert_eq!(cells.last(), Some(&(0, 0)));
    assert_eq!(cells.len(), 6);
}

#[test]
fn steep_line_stays_in_bounding_box() {
    let line = Line::new((1, 7), (3, 0));
    let cells = line.coordinates();
    assert_eq!(cells.first(), Some(&(1, 7)));
    assert_eq!(cells.last(), Some(&(3, 0)));
    for (x, y) in cells {
        assert!((1..=3).contains(&x));
        assert!((0..=7).contains(&y));
    }
}

#[test]
fn rectangle_inclusive_box() {
    let rect = Rectangle::new((2, 2), (4, 3));
    assert_eq!(
        rect.coordinates(),
        vec![(2, 2), (2, 3), (3, 2), (3, 3), (4, 2), (4, 3)]
    );
}

#[test]
fn rectangle_single_cell() {
    let rect = Rectangle::new((7, 9), (7, 9));
    assert_eq!(rect.coordinates(), vec![(7, 9)]);
}

#[test]
fn rectangle_empty_when_corners_inverted() {
    let rect = Rectangle::new((5, 5), (2, 2));
    assert_eq!(rect.coordinates(), Vec::<(usize, usize)>::new());
}

#[test]
fn canvas_starts_white() {
    let canvas = Canvas::new(4, 3);
    assert_eq!(canvas.width(), 4);
    assert_eq!(canvas.height(), 3);
    for col in 0..3 {
        for row in 0..4 {
            assert_eq!(canvas.get_pixel(col, row), Color::White);
        }
    }
}

#[test]
fn draw_paints_every_covered_cell() {
    let mut canvas = Canvas::new(6, 6);
    canvas.draw(Rectangle::new((1, 1), (2, 2)), &Color::Red);
    assert_eq!(canvas.get_pixel(1, 1), Color::Red);
    assert_eq!(canvas.get_pixel(2, 2), Color::Red);
    assert_eq!(canvas.get_pixel(3, 3), Color::White);
}

#[test]
fn overlapping_draws_keep_later_color() {
    let mut canvas = Canvas::new(8, 8);
    canvas.draw(Rectangle::new((0, 0), (4, 4)), &Color::Red);
    canvas.draw(Rectangle::new((2, 2), (6, 6)), &Color::Green);
    // the overlapped cells hold the later call's color
    assert_eq!(canvas.get_pixel(2, 2), Color::Green);
    assert_eq!(canvas.get_pixel(4, 4), Color::Green);
    // cells only the first draw covers keep its color
    assert_eq!(canvas.get_pixel(0, 0), Color::Red);
    assert_eq!(canvas.get_pixel(1, 4), Color::Red);
    // untouched cells stay at the background
    assert_eq!(canvas.get_pixel(7, 7), Color::White);
}

#[test]
fn overlapping_line_draws_keep_later_color() {
    let mut canvas = Canvas::new(10, 10);
    canvas.draw(Line::new((0, 3), (9, 3)), &Color::Black);
    canvas.draw(Line::new((5, 0), (5, 9)), &Color::Yellow);
    // the crossing cell belongs to the later line
    assert_eq!(canvas.get_pixel(3, 5), Color::Yellow);
    assert_eq!(canvas.get_pixel(3, 4), Color::Black);
}
