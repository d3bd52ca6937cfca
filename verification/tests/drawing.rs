use strangers::canvas::{height, width, Canvas, HEIGHT, STRANGER_END, STRANGER_START, WIDTH};
use strangers::color::{bg_color, black, color_in, scale_value, Color, DrawMode};
use strangers::curve::{mid_y, y_at_x};
use strangers::line::trace_spline;
use strangers::pattern::{f0, f1, f2, f3, f4, f5, f6, f7, pattern};
use strangers::sample::sample_every;

fn rgb(r: u8, g: u8, b: u8) -> Color {
    Color { r, g, b, a: 255 }
}

fn count(c: &Canvas, color: Color) -> usize {
    let mut n = 0;
    for y in 0..HEIGHT {
        for x in 0..WIDTH {
            if c.get(x, y) == color {
                n += 1;
            }
        }
    }
    n
}

#[test]
fn canvas_dimensions() {
    assert_eq!(width(), 400);
    assert_eq!(height(), 300);
    assert_eq!(STRANGER_START, 20);
    assert_eq!(STRANGER_END, 380);
}

#[test]
fn new_canvas_is_background() {
    let c = Canvas::new();
    assert_eq!(count(&c, bg_color()), WIDTH * HEIGHT);
    let bytes = c.raw_pixels();
    assert_eq!(bytes.len(), 4 * WIDTH * HEIGHT);
    assert_eq!(&bytes[0..4], &[200, 200, 200, 255]);
}

#[test]
fn raw_pixels_are_row_major_rgba() {
    let mut c = Canvas::new();
    c.mark_pixel(3, 2, rgb(1, 2, 3), DrawMode::Over);
    let bytes = c.raw_pixels();
    let i = 4 * (2 * WIDTH + 3);
    assert_eq!(&bytes[i..i + 4], &[1, 2, 3, 255]);
}

#[test]
fn mark_pixel_respects_modes() {
    let mut c = Canvas::new();
    let red = rgb(255, 0, 0);
    let blue = rgb(0, 0, 255);
    c.mark_pixel(5, 5, red, DrawMode::Under);
    assert_eq!(c.get(5, 5), red);
    c.mark_pixel(5, 5, blue, DrawMode::Under);
    assert_eq!(c.get(5, 5), red);
    c.mark_pixel(5, 5, blue, DrawMode::OnlyOn(bg_color()));
    assert_eq!(c.get(5, 5), red);
    c.mark_pixel(5, 5, blue, DrawMode::OnlyOnEither(bg_color(), red));
    assert_eq!(c.get(5, 5), blue);
    c.mark_pixel(5, 5, red, DrawMode::Over);
    assert_eq!(c.get(5, 5), red);
}

#[test]
fn draw_mode_allows() {
    let red = rgb(255, 0, 0);
    assert!(DrawMode::Over.allows(red));
    assert!(DrawMode::Under.allows(bg_color()));
    assert!(!DrawMode::Under.allows(red));
    assert!(DrawMode::OnlyOn(red).allows(red));
    assert!(!DrawMode::OnlyOnEither(bg_color(), black()).allows(red));
}

#[test]
fn scale_value_halves_channels() {
    assert_eq!(scale_value(Color { r: 201, g: 100, b: 3, a: 77 }), Color { r: 100, g: 50, b: 1, a: 77 });
}

#[test]
fn color_in_finds_members() {
    let v = vec![black(), bg_color()];
    assert!(color_in(&v, bg_color()));
    assert!(!color_in(&v, rgb(1, 1, 1)));
    assert!(!color_in(&Vec::new(), black()));
}

#[test]
fn patterns_exact_values() {
    assert!(f0(0, 0));
    assert!(!f0(1, 1));
    assert!(f0(2, 2));
    assert!(f1(5, 1));
    assert!(f1(1, 5));
    assert!(!f1(1, 2));
    assert!(f2(1, 3));
    assert!(!f2(1, 2));
    assert!(f3(1, 3));
    assert!(!f3(1, 2));
    assert!(!f4(0, 1));
    assert!(f4(0, 0));
    assert!(!f5(0, 1));
    assert!(f5(1, 0));
    assert!(!f6(1, 2));
    assert!(f6(0, 0));
    assert!(f7(7, 9));
    assert!(pattern(9, 5, 1));
    assert!(!pattern(8, 1, 1));
}

#[test]
fn patterns_grow_denser() {
    for k in 0..7 {
        for y in 0..12 {
            for x in 0..12 {
                if pattern(k, x, y) {
                    assert!(pattern(k + 1, x, y), "k={} x={} y={}", k, x, y);
                }
            }
        }
    }
}

#[test]
fn vertical_and_horizontal_lines() {
    let mut c = Canvas::new();
    let red = rgb(255, 0, 0);
    c.draw_vertical_line(10, 3, 7, red, DrawMode::Over);
    assert_eq!(count(&c, red), 5);
    assert_eq!(c.get(10, 3), red);
    assert_eq!(c.get(10, 7), red);
    assert_eq!(c.get(10, 8), bg_color());
    c.draw_horizontal_line(20, 4, 6, red, DrawMode::Over);
    assert_eq!(count(&c, red), 8);
    assert_eq!(c.get(6, 20), red);
    c.draw_vertical_line(11, 7, 3, red, DrawMode::Over);
    assert_eq!(count(&c, red), 8);
}

#[test]
fn fill_rect_paints_inclusive_rectangle() {
    let mut c = Canvas::new();
    let red = rgb(255, 0, 0);
    c.mark_pixel(2, 2, black(), DrawMode::Over);
    c.fill_rect((1, 1), (3, 4), red, DrawMode::Under);
    assert_eq!(count(&c, red), 11);
    assert_eq!(c.get(2, 2), black());
    assert_eq!(c.get(3, 4), red);
    assert_eq!(c.get(4, 4), bg_color());
}

#[test]
fn draw_spline_blackens_points() {
    let mut c = Canvas::new();
    c.draw_spline(&vec![(1, 1), (2, 1), (1, 1)]);
    assert_eq!(count(&c, black()), 2);
}

#[test]
fn draw_iris_paints_disc_over_midpoint_colour() {
    let mut c = Canvas::new();
    let red = rgb(255, 0, 0);
    c.mark_pixel(51, 50, black(), DrawMode::Over);
    c.draw_iris((50, 50), 2, red);
    // the disc of radius 2 holds the 9 points with dx^2 + dy^2 < 4, one of them black
    assert_eq!(count(&c, red), 8);
    assert_eq!(c.get(51, 50), black());
    assert_eq!(c.get(52, 50), bg_color());
}

#[test]
fn y_at_x_takes_last_point_in_column() {
    let s = vec![(1, 10), (2, 20), (1, 30)];
    assert_eq!(y_at_x(&s, 1), 30);
    assert_eq!(y_at_x(&s, 2), 20);
    assert_eq!(y_at_x(&s, 3), 0);
    assert_eq!(mid_y(&s, &vec![(2, 40)], 2), 30);
}

#[test]
fn sample_every_steps() {
    let pts: Vec<(usize, usize)> = (0..10).map(|i| (i, 2 * i)).collect();
    assert_eq!(sample_every(&pts, 2, 9, 3), vec![(2, 4), (5, 10), (8, 16)]);
    assert_eq!(sample_every(&pts, 2, 8, 3), vec![(2, 4), (5, 10)]);
    assert_eq!(sample_every(&pts, 4, 100, 4), vec![(4, 8), (8, 16)]);
    assert_eq!(sample_every(&pts, 12, 100, 1), vec![]);
}

#[test]
fn draw_line_follows_bresenham() {
    let mut c = Canvas::new();
    assert!(c.draw_line(0, 1, 6, 4, black(), DrawMode::Over));
    // (0, 1) lies in column 0, which is never drawn; the end point is excluded
    for (x, y) in [(1, 1), (2, 2), (3, 2), (4, 3), (5, 3)] {
        assert_eq!(c.get(x, y), black(), "({}, {})", x, y);
    }
    assert_eq!(count(&c, black()), 5);
}

#[test]
fn draw_segment_refuses_rows_off_canvas() {
    let mut c = Canvas::new();
    assert!(!c.draw_segment((10, 298), (10, 303), black(), DrawMode::Over));
    assert_eq!(count(&c, black()), 0);
    assert!(c.draw_segment((-5, 0), (3, 0), black(), DrawMode::Over));
    assert_eq!(count(&c, black()), 2);
}

#[test]
fn trace_spline_joins_segments() {
    let path = trace_spline(&vec![(0, 0), (3, 0), (3, 2)]);
    assert_eq!(path, vec![(0, 0), (1, 0), (2, 0), (3, 0), (3, 1)]);
    assert_eq!(trace_spline(&vec![(4, 4)]), vec![]);
}
