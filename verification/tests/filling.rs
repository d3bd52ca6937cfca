use strangers::canvas::{Canvas, HEIGHT, WIDTH};
use strangers::color::{bg_color, black, Color, DrawMode};

fn rgb(r: u8, g: u8, b: u8) -> Color {
    Color { r, g, b, a: 255 }
}

fn count(c: &Canvas, color: Color) -> usize {
    let mut n = 0;
    for y in 0..HEIGHT {
        for x in 0..WIDTH {
            if c.get(x, y) == color {
                n += 1;
            }
        }
    }
    n
}

fn boxed() -> Canvas {
    // a black square outline from (100, 100) to (110, 110)
    let mut c = Canvas::new();
    c.draw_horizontal_line(100, 100, 110, black(), DrawMode::Over);
    c.draw_horizontal_line(110, 100, 110, black(), DrawMode::Over);
    c.draw_vertical_line(100, 100, 110, black(), DrawMode::Over);
    c.draw_vertical_line(110, 100, 110, black(), DrawMode::Over);
    c
}

#[test]
fn flood_fill_fills_enclosed_region() {
    let mut c = boxed();
    let red = rgb(255, 0, 0);
    c.flood_fill(105, 105, red, &vec![bg_color()], DrawMode::Over);
    assert_eq!(count(&c, red), 81);
    assert_eq!(c.get(101, 101), red);
    assert_eq!(c.get(100, 105), black());
    assert_eq!(c.get(111, 105), bg_color());
}

#[test]
fn flood_fill_from_unfillable_seed_changes_nothing() {
    let mut c = boxed();
    let red = rgb(255, 0, 0);
    c.flood_fill(100, 105, red, &vec![bg_color()], DrawMode::Over);
    assert_eq!(count(&c, red), 0);
    assert_eq!(count(&c, black()), 40);
}

#[test]
fn flood_fill_twice_is_once() {
    let mut c = boxed();
    let red = rgb(255, 0, 0);
    c.flood_fill(105, 105, red, &vec![bg_color()], DrawMode::Over);
    let once = c.raw_pixels();
    c.flood_fill(105, 105, red, &vec![bg_color()], DrawMode::Over);
    assert_eq!(c.raw_pixels(), once);
}

#[test]
fn flood_fill_stays_inside_stranger_columns() {
    let mut c = Canvas::new();
    let red = rgb(255, 0, 0);
    c.flood_fill(200, 150, red, &vec![bg_color()], DrawMode::Over);
    // interior: columns 21..=379, rows 1..=299
    assert_eq!(count(&c, red), 359 * 299);
    assert_eq!(c.get(20, 150), bg_color());
    assert_eq!(c.get(200, 0), bg_color());
    assert_eq!(c.get(379, 299), red);
}

#[test]
fn flood_fill_seed_outside_interior() {
    let mut c = Canvas::new();
    let red = rgb(255, 0, 0);
    c.mark_pixel(0, 0, black(), DrawMode::Over);
    c.mark_pixel(1, 0, black(), DrawMode::Over);
    c.flood_fill(0, 0, red, &vec![black()], DrawMode::Over);
    assert_eq!(c.get(0, 0), red);
    assert_eq!(c.get(1, 0), black());
}

#[test]
fn leg_is_outlined_and_filled() {
    let mut c = Canvas::new();
    let body = rgb(10, 200, 10);
    // a flat body line at row 100 across columns 90..=110
    let dorsal: Vec<(usize, usize)> = (90..=110).map(|x| (x, 100)).collect();
    c.draw_leg(100, &dorsal, 120, body, 4, DrawMode::Over);
    // sides at columns 100 and 104 from row 100 to 120, sole at row 121
    assert_eq!(c.get(100, 110), black());
    assert_eq!(c.get(104, 120), black());
    assert_eq!(c.get(102, 121), black());
    // inside: columns 101..=103, rows 99..=120
    assert_eq!(c.get(101, 99), body);
    assert_eq!(c.get(103, 120), body);
    assert_eq!(count(&c, body), 3 * 22);
}
