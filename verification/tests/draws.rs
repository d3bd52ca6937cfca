use strangers::canvas::{Canvas, HEIGHT, WIDTH};
use strangers::color::{bg_color, black, Color, DrawMode};
use strangers::metadata::{MetaDraws, Metadata};
use strangers::palette::Palette;
use strangers::params::{ParamDraws, StrangerParams};

fn rgb(r: u8, g: u8, b: u8) -> Color {
    Color { r, g, b, a: 255 }
}

fn snapshot(c: &Canvas) -> Vec<Color> {
    let mut v = Vec::new();
    for y in 0..HEIGHT {
        for x in 0..WIDTH {
            v.push(c.get(x, y));
        }
    }
    v
}

fn sample_draws() -> ParamDraws {
    ParamDraws {
        y0: 120,
        x1: 110,
        c_y1: 150,
        x2: 260,
        c_y2: 140,
        y3: 60,
        dorsal_1: 20,
        dorsal_2: 30,
        ventral_1: 16,
        ventral_2: 25,
        eye_start_x: 65,
        eye_end_x: 95,
        iris_radius: 6,
        leg_width: 5,
        fore_hind_dist: 130,
        stripe_die: 2,
        stripe_width: 28,
        stripe_start_die: 1,
        stripe_start: 40,
        gradient_die: 3,
        gradient_start: 7,
        gradient_end: 90,
        mouth_die: 5,
        mouth: 85,
    }
}

#[test]
fn params_from_draws_exact() {
    let pal = Palette::from_draws((10, 20, 30), 5, 1, (4, 5, 6));
    let sp = StrangerParams::from_draws(pal, sample_draws());
    assert_eq!(sp.palette, pal);
    assert_eq!(sp.core_anchors, [(20, 120), (110, 150), (260, 140), (380, 60)]);
    assert_eq!(sp.dorsal_anchors, [(20, 120), (110, 170), (260, 170), (380, 60)]);
    assert_eq!(sp.ventral_anchors, [(20, 120), (110, 134), (260, 115), (380, 60)]);
    assert_eq!((sp.eye_start_x, sp.eye_end_x, sp.iris_radius), (65, 95, 6));
    assert_eq!((sp.leg_width, sp.fore_hind_dist), (5, 130));
    assert_eq!(sp.stripes, Some((40, 28)));
    assert_eq!(sp.gradient, None);
    assert_eq!(sp.mouth, Some(85));
}

#[test]
fn params_from_draws_branches() {
    let pal = Palette::from_draws((10, 20, 30), 5, 0, (4, 5, 6));
    // stripes starting one spacing in, with a gradient beside them
    let mut d = sample_draws();
    d.stripe_start_die = 0;
    d.gradient_die = 0;
    let sp = StrangerParams::from_draws(pal, d);
    assert_eq!(sp.stripes, Some((28, 28)));
    assert_eq!(sp.gradient, Some((7, 90)));
    // no stripes: always a gradient, whatever its own die holds; no mouth
    let mut d = sample_draws();
    d.stripe_die = 0;
    d.gradient_die = 4;
    d.mouth_die = 0;
    let sp = StrangerParams::from_draws(pal, d);
    assert_eq!(sp.stripes, None);
    assert_eq!(sp.gradient, Some((7, 90)));
    assert_eq!(sp.mouth, None);
}

fn sample_meta_draws() -> MetaDraws {
    MetaDraws {
        class: 3,
        disposition: 2,
        height_scale: 0,
        height_big: 512,
        height_small: 7,
        length_scale: 1,
        length_big: 2999,
        length_small: 42,
        weight: 9999,
        size_variance: 0,
        iq_scale: 4,
        iq_big: 999999,
        iq_small: 101,
        core_temp: -2000,
        stability: 1,
        prevalence: 50,
        constancy: 99,
        longevity_scale: 0,
        longevity_big: 123,
        longevity_small: 150,
        no_appearing: 11,
        vision: 2,
        language_family: 10,
    }
}

#[test]
fn metadata_from_draws_exact() {
    let m = Metadata::from_draws(sample_meta_draws());
    assert_eq!(m.class_t(), "curio");
    assert_eq!(m.disposition(), "sanguine");
    assert_eq!(m.vision(), "near-far");
    assert_eq!(m.language_family(), "true mute");
    assert_eq!(m.height_tenths, 512);
    assert_eq!(m.length_tenths, 42);
    assert_eq!(m.weight_tenths, 9999);
    assert_eq!(m.size_variance, 0);
    assert_eq!(m.iq, 101);
    assert_eq!(m.core_temp_tenths, -2000);
    assert_eq!((m.stability, m.prevalence, m.constancy), (1, 50, 99));
    assert_eq!(m.longevity_hundredths, 1230);
    assert_eq!(m.no_appearing, 11);
}

#[test]
fn metadata_from_draws_other_scales() {
    let mut d = sample_meta_draws();
    d.class = 0;
    d.height_scale = 2;
    d.length_scale = 0;
    d.iq_scale = 0;
    d.longevity_scale = 1;
    let m = Metadata::from_draws(d);
    assert_eq!(m.class_t(), "companion");
    assert_eq!(m.height_tenths, 7);
    assert_eq!(m.length_tenths, 2999);
    assert_eq!(m.iq, 999999);
    assert_eq!(m.longevity_hundredths, 150);
}

#[test]
fn flood_fill_from_other_colour_ignores_its_conditions() {
    // the seed's colour is not among the fill colours, so even a fill colour
    // that is one of them, in a mode that paints none of them, changes nothing
    let mut c = Canvas::new();
    c.draw_vertical_line(100, 10, 200, black(), DrawMode::Over);
    let before = snapshot(&c);
    c.flood_fill(100, 50, bg_color(), &vec![bg_color()], DrawMode::OnlyOn(rgb(1, 2, 3)));
    assert_eq!(snapshot(&c), before);
}

#[test]
fn gradient_changes_only_body_pixels_between_edges_and_end() {
    let body = rgb(0, 200, 0);
    let gradient = rgb(200, 0, 0);
    let mut c = Canvas::new();
    // body colour on columns 0..=399 of rows 100..=120, a black pixel among them
    for y in 100..=120 {
        c.draw_horizontal_line(y, 0, WIDTH - 1, body, DrawMode::Over);
    }
    c.mark_pixel(200, 110, black(), DrawMode::Over);
    let before = snapshot(&c);
    let edges: Vec<Vec<usize>> = (0..8).map(|i| vec![30 + 10 * i; HEIGHT]).collect();
    c.draw_gradient(gradient, body, &edges);
    let after = snapshot(&c);
    let mut changed = 0;
    for y in 0..HEIGHT {
        for x in 0..WIDTH {
            let (o, n) = (before[y * WIDTH + x], after[y * WIDTH + x]);
            if o != n {
                changed += 1;
                assert_eq!(o, body);
                assert_eq!(n, gradient);
                assert!((30..380).contains(&x), "changed column {}", x);
            }
        }
    }
    assert!(changed > 0);
    assert_eq!(c.get(200, 110), black());
    assert_eq!(c.get(385, 110), body);
}

#[test]
fn perpendicular_line_marks_only_body_and_gradient() {
    let body = rgb(0, 200, 0);
    let gradient = rgb(200, 0, 0);
    let outline = rgb(0, 0, 90);
    let mut c = Canvas::new();
    for y in 100..=120 {
        c.draw_horizontal_line(y, 0, WIDTH - 1, body, DrawMode::Over);
    }
    c.draw_horizontal_line(110, 0, WIDTH - 1, gradient, DrawMode::Over);
    let before = snapshot(&c);
    assert!(c.draw_perpendicular_line(50, None, outline, body, gradient));
    assert!(c.draw_perpendicular_line(0, Some(((90, 90), (60, 130))), outline, body, gradient));
    let after = snapshot(&c);
    for y in 0..HEIGHT {
        for x in 0..WIDTH {
            let (o, n) = (before[y * WIDTH + x], after[y * WIDTH + x]);
            if o != n {
                assert!(o == body || o == gradient);
                assert_eq!(n, outline);
                assert!(x > 0);
            }
        }
    }
    assert_eq!(c.get(50, 105), outline);
    assert_eq!(c.get(50, 110), outline);
    assert_eq!(c.get(50, 90), bg_color());
}

#[test]
fn traced_path_has_no_gaps() {
    let samples: Vec<(isize, isize)> = vec![(0, 0), (3, 1), (3, 1), (5, 6), (1, 7)];
    let path = strangers::line::trace_spline(&samples);
    assert_eq!(path[0], (0, 0));
    for k in 0..path.len() - 1 {
        let (p, q) = (path[k], path[k + 1]);
        assert!(p != q);
        assert!((p.0 as isize - q.0 as isize).abs() <= 1 && (p.1 as isize - q.1 as isize).abs() <= 1);
    }
    let last = path[path.len() - 1];
    assert!(last != (1, 7) && (last.0 as isize - 1).abs() <= 1 && (last.1 as isize - 7).abs() <= 1);
    assert_eq!(path.len(), 3 + 5 + 4);
}
