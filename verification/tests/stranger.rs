use strangers::canvas::{Canvas, HEIGHT, WIDTH};
use strangers::color::{bg_color, black, Color};
use strangers::eye::{generate_eye_anchors, plan_eye};
use strangers::metadata::Metadata;
use strangers::palette::{generate_palette, Palette};
use strangers::params::StrangerParams;
use strangers::render::{render, Geometry};

#[test]
fn palette_from_draws_exact() {
    let p = Palette::from_draws((10, 20, 250), 20, 0, (1, 2, 3));
    assert_eq!(p.body, Color { r: 10, g: 20, b: 250, a: 255 });
    assert_eq!(p.iris, Color { r: 225, g: 215, b: 241, a: 255 });
    assert_eq!(p.stripe, Color { r: 30, g: 40, b: 14, a: 255 });
    assert_eq!(p.stripe_outline, Color { r: 15, g: 20, b: 7, a: 255 });
    assert_eq!(p.sclera, Color { r: 9, g: 255, b: 25, a: 255 });
    assert_eq!(p.gradient, Color { r: 1, g: 2, b: 3, a: 255 });
    let w = Palette::from_draws((10, 20, 250), 20, 2, (1, 2, 3));
    assert_eq!(w.sclera, Color { r: 255, g: 255, b: 255, a: 255 });
}

#[test]
fn generated_palettes_keep_their_relations() {
    for _ in 0..50 {
        let p = generate_palette();
        assert!(p.body.r < 255 && p.body.g < 255 && p.body.b < 255 && p.body.a == 255);
        assert_eq!(p.stripe.r as u32 + p.iris.r as u32, 255);
        assert_eq!(p.stripe_outline.g, p.stripe.g / 2);
    }
}

#[test]
fn generated_params_are_in_range() {
    for _ in 0..50 {
        let sp = StrangerParams::new();
        assert_eq!(sp.core_anchors[0].0, 20);
        assert_eq!(sp.core_anchors[3].0, 380);
        assert!((100..150).contains(&sp.core_anchors[1].0));
        let t = sp.dorsal_anchors[1].1 - sp.core_anchors[1].1;
        assert!((15..35).contains(&t));
        assert!((60..80).contains(&sp.eye_start_x));
        assert!((4..12).contains(&sp.iris_radius));
        if sp.stripes.is_none() {
            assert!(sp.gradient.is_some());
        }
        if let Some((start, width)) = sp.stripes {
            assert!((25..35).contains(&width) && width <= start && start < 2 * width);
        }
        if let Some(m) = sp.mouth {
            assert!((80..100).contains(&m));
        }
    }
}

#[test]
fn generated_metadata_is_in_range() {
    for _ in 0..50 {
        let m = Metadata::new();
        assert!(!m.class_t().is_empty());
        assert!(["choleric", "melancholic", "sanguine", "phleghmatic"].contains(&m.disposition().as_str()));
        assert!(["far", "near", "near-far", "blind"].contains(&m.vision().as_str()));
        assert!(!m.language_family().is_empty());
        assert!((1..1000).contains(&m.height_tenths));
        assert!((-2000..10000).contains(&m.core_temp_tenths));
        assert!((1..12).contains(&m.no_appearing));
        let l = m.longevity_hundredths;
        assert!((l % 10 == 0 && (10..10000).contains(&l)) || (10..200).contains(&l));
    }
}

#[test]
fn eye_anchors_in_range() {
    for _ in 0..20 {
        let (top, bottom) = generate_eye_anchors((60, 100), (90, 104), 10);
        assert_eq!(top[0], (60, 100));
        assert_eq!(top[2], (90, 104));
        assert_eq!(top[1].0, 75);
        assert!((107..112).contains(&top[1].1));
        assert!((93..=97).contains(&bottom[1].1));
    }
}

fn flat_params() -> StrangerParams {
    StrangerParams {
        palette: Palette::from_draws((10, 150, 10), 40, 1, (90, 20, 20)),
        core_anchors: [(20, 150), (120, 150), (270, 150), (380, 150)],
        dorsal_anchors: [(20, 150), (120, 170), (270, 170), (380, 150)],
        ventral_anchors: [(20, 150), (120, 130), (270, 130), (380, 150)],
        eye_start_x: 60,
        eye_end_x: 90,
        iris_radius: 3,
        leg_width: 4,
        fore_hind_dist: 120,
        stripes: None,
        gradient: None,
        mouth: Some(90),
    }
}

fn row(x0: usize, x1: usize, y: usize) -> Vec<(usize, usize)> {
    (x0..=x1).map(|x| (x, y)).collect()
}

fn flat_geometry() -> Geometry {
    // a box-shaped body: outlines at rows 130 and 170, closed at both ends
    let mut ventral = row(20, 380, 130);
    let mut dorsal = row(20, 380, 170);
    for y in 130..=170 {
        ventral.push((20, y));
        dorsal.push((380, y));
    }
    // a box-shaped eye: lids at rows 146 and 154, closed at columns 60 and 90
    let mut top_eye = row(60, 90, 146);
    let mut bottom_eye = row(60, 90, 154);
    for y in 146..=154 {
        top_eye.push((60, y));
        bottom_eye.push((90, y));
    }
    Geometry {
        core: row(20, 380, 150),
        dorsal,
        ventral,
        gradient_edges: vec![],
        stripe_lines: vec![],
        top_eye,
        bottom_eye,
        mouth_end_x: Some(54),
    }
}

#[test]
fn render_draws_body_eye_legs_and_mouth() {
    let sp = flat_params();
    let g = flat_geometry();
    let c: Canvas = render(&sp, &g).expect("drawable");
    let body = sp.palette.body;
    assert_eq!(c.get(200, 140), body);
    assert_eq!(c.get(200, 130), black());
    assert_eq!(c.get(200, 100), bg_color());
    // the eye's midpoint is (75, 150), inside the iris
    assert_eq!(c.get(75, 150), sp.palette.iris);
    assert_eq!(c.get(75, 148), sp.palette.iris);
    assert_eq!(c.get(65, 150), sp.palette.sclera);
    // near fore leg from column 128 to 132 down to row 275
    assert_eq!(c.get(128, 250), black());
    assert_eq!(c.get(130, 250), body);
    assert_eq!(c.get(130, 276), black());
    // the mouth runs from (20, 150) towards (54, 160)
    assert_eq!(c.get(21, 150), black());
    assert_eq!(c.raw_pixels().len(), 4 * WIDTH * HEIGHT);
}

#[test]
fn render_refuses_mismatched_mouth() {
    let sp = flat_params();
    let mut g = flat_geometry();
    g.mouth_end_x = None;
    assert!(render(&sp, &g).is_none());
}

#[test]
fn render_refuses_curve_off_canvas() {
    let sp = flat_params();
    let mut g = flat_geometry();
    g.dorsal.push((WIDTH, 10));
    assert!(render(&sp, &g).is_none());
}

#[test]
fn plan_eye_for_flat_body() {
    let sp = flat_params();
    let g = flat_geometry();
    // 20 pixels of room on each side at column 75: width 12
    let (top, bottom) = plan_eye(&sp, &g.core, &g.dorsal, &g.ventral).expect("eye fits");
    assert_eq!(top[1].0, 75);
    assert!((156..162).contains(&top[1].1));
    assert!((139..=144).contains(&bottom[1].1));
}

#[test]
fn draws_vary() {
    // the dice are not stuck on the low end of their ranges
    let heights: Vec<i32> = (0..40).map(|_| Metadata::new().weight_tenths).collect();
    assert!(heights.iter().any(|&h| h != heights[0]));
    assert!(heights.iter().any(|&h| h != 1));
    let bodies: Vec<Color> = (0..40).map(|_| generate_palette().body).collect();
    assert!(bodies.iter().any(|&b| b != bodies[0]));
}

#[test]
fn render_draws_background_body_when_its_seed_is_on_an_outline() {
    // a body of the background colour: the fill from a seed on the lower
    // outline never starts, and the stranger is drawn
    let mut sp = flat_params();
    sp.palette.body = bg_color();
    sp.core_anchors[2] = (270, 170);
    let g = flat_geometry();
    let c = render(&sp, &g).expect("drawable");
    assert_eq!(c.get(200, 140), bg_color());
    assert_eq!(c.get(200, 170), black());
    // from a background seed inside the body that fill would never end
    sp.core_anchors[2] = (270, 150);
    assert!(render(&sp, &g).is_none());
}

#[test]
fn render_draws_eye_whose_seed_is_on_a_lid() {
    // a sclera of the body colour: with both lids on row 150 the seed lies on a
    // lid, the fill never starts, and the stranger is drawn
    let mut sp = flat_params();
    sp.palette.sclera = sp.palette.body;
    let mut g = flat_geometry();
    g.top_eye = row(60, 90, 150);
    g.bottom_eye = row(60, 90, 150);
    let c = render(&sp, &g).expect("drawable");
    assert_eq!(c.get(65, 150), black());
    assert_eq!(c.get(65, 148), sp.palette.body);
    // between lids apart the seed is body-coloured and that fill would never end
    assert!(render(&sp, &flat_geometry()).is_none());
}

#[test]
fn render_draws_stripes_whose_seed_is_on_a_stripe_line() {
    // a stripe of the body colour: the one stripe point is column 320, its
    // seed (321, 150) lies on its own line, the fill never starts
    let mut sp = flat_params();
    sp.palette.stripe = sp.palette.body;
    sp.stripes = Some((300, 100));
    let mut g = flat_geometry();
    g.stripe_lines = vec![Some(((321, 140), (321, 161)))];
    let c = render(&sp, &g).expect("drawable");
    assert_eq!(c.get(321, 150), sp.palette.stripe_outline);
    assert_eq!(c.get(330, 150), sp.palette.body);
    // a line one column to the left leaves the seed on the body: never ends
    g.stripe_lines = vec![Some(((320, 140), (320, 161)))];
    assert!(render(&sp, &g).is_none());
}
