use fractal_engine::color::{arrange_by_sector, colorize, hue_sector, Rgb};
use fractal_engine::iterate::{advance_iteration, escape_count, StepOutcome};
use fractal_engine::randomize::{fractal_type_of_index, random_fractal_type};
use fractal_engine::renderer::{
    assemble_image, chunk_size, effective_worker_count, render_plan, row_chunks, RenderedImage,
};
use fractal_engine::state::{FractalType, RenderError, ViewportState};
use num_complex::Complex64;

const BLACK: Rgb = Rgb { r: 0, g: 0, b: 0 };

fn formula_step(
    z: Complex64,
    prev: Complex64,
    c: Complex64,
    ftype: FractalType,
    power: f64,
    param: f64,
) -> Complex64 {
    match ftype {
        FractalType::Classic => z.powf(power) + c,
        FractalType::Spiral => z.powf(power) + c + prev * param,
        FractalType::Flower => (z * z.sin() + c) * Complex64::new(param.cos(), param.sin()),
        FractalType::Phoenix => z.powf(power) - prev.sin() * param + c,
        FractalType::Butterfly => {
            let r = z.norm();
            if r > 0.0 {
                Complex64::from_polar(r.powf(param), z.arg() * power) + c
            } else {
                z
            }
        }
    }
}

/// The iteration loop as a caller runs it: the numeric kernel evaluates
/// the formula, the library decides when to stop and with which count.
fn iterate_fractal(
    c: Complex64,
    ftype: FractalType,
    power: f64,
    param: f64,
    max_iter: u32,
) -> u32 {
    let mut z = Complex64::new(0.0, 0.0);
    let mut prev = z;
    let mut i: u32 = 0;
    loop {
        match advance_iteration(i, max_iter, z.norm_sqr() > 4.0) {
            StepOutcome::Escaped(n) => return n,
            StepOutcome::Exhausted(n) => return n,
            StepOutcome::Continue => {
                let temp = z;
                z = formula_step(z, prev, c, ftype, power, param);
                prev = temp;
                i += 1;
            }
        }
    }
}

/// The same trace recorded as per-step escape-test outcomes, for the
/// offline counting entry point.
fn escape_flags(
    c: Complex64,
    ftype: FractalType,
    power: f64,
    param: f64,
    max_iter: u32,
) -> Vec<bool> {
    let mut z = Complex64::new(0.0, 0.0);
    let mut prev = z;
    let mut flags = Vec::new();
    for _ in 0..max_iter {
        flags.push(z.norm_sqr() > 4.0);
        let temp = z;
        z = formula_step(z, prev, c, ftype, power, param);
        prev = temp;
    }
    flags
}

fn hsv_to_rgb(h: f32, s: f32, v: f32) -> Rgb {
    let c = v * s;
    let x = c * (1.0 - ((h / 60.0) % 2.0 - 1.0).abs());
    let m = v - c;
    let sector = hue_sector(h as i32);
    let chroma = ((c + m) * 255.0) as u8;
    let xval = ((x + m) * 255.0) as u8;
    let base = (m * 255.0) as u8;
    arrange_by_sector(sector, chroma, xval, base)
}

fn map_pixel(x: u32, y: u32, state: &ViewportState) -> Complex64 {
    let zoom = f64::from_bits(state.zoom_bits);
    let scale = 2.5 / zoom;
    let re = (x as f64 / state.width as f64) * 3.5 * scale - 2.5 * scale
        + f64::from_bits(state.center_x_bits);
    let im = (y as f64 / state.height as f64) * 2.0 * scale - 1.0 * scale
        + f64::from_bits(state.center_y_bits);
    Complex64::new(re, im)
}

fn pixel_color(x: u32, y: u32, state: &ViewportState) -> Rgb {
    let c = map_pixel(x, y, state);
    let i = iterate_fractal(
        c,
        state.fractal_type,
        f64::from_bits(state.power_bits),
        f64::from_bits(state.secondary_param_bits),
        state.max_iter,
    );
    let hue = ((i as f32 / state.max_iter as f32) * 360.0 + f32::from_bits(state.hue_offset_bits))
        % 360.0;
    let hsv = hsv_to_rgb(
        hue,
        f32::from_bits(state.saturation_bits),
        f32::from_bits(state.value_bits),
    );
    colorize(i, state.max_iter, hsv)
}

/// A full render as a caller composes it: plan, per-chunk buffers,
/// reassembly.
fn render(state: &ViewportState, workers: u32) -> Result<RenderedImage, RenderError> {
    let chunks = match render_plan(state, workers) {
        Ok(chunks) => chunks,
        Err(e) => return Err(e),
    };
    let mut parts: Vec<Vec<Rgb>> = Vec::new();
    for &(ys, ye) in &chunks {
        let mut buf = Vec::new();
        for y in ys..ye {
            for x in 0..state.width {
                buf.push(pixel_color(x, y, state));
            }
        }
        parts.push(buf);
    }
    Ok(assemble_image(state.width, state.height, &chunks, &parts))
}

#[test]
fn default_state_matches_documented_defaults() {
    let s = ViewportState::default();
    assert_eq!(s.fractal_type, FractalType::Classic);
    assert_eq!(s.zoom_bits, (1.0f64).to_bits());
    assert_eq!(s.center_x_bits, (-0.5f64).to_bits());
    assert_eq!(s.center_y_bits, (0.0f64).to_bits());
    assert_eq!(s.max_iter, 1000);
    assert_eq!(s.power_bits, (2.0f64).to_bits());
    assert_eq!(s.secondary_param_bits, (0.5f64).to_bits());
    assert_eq!(s.hue_offset_bits, (0.0f32).to_bits());
    assert_eq!(s.saturation_bits, (1.0f32).to_bits());
    assert_eq!(s.value_bits, (1.0f32).to_bits());
    assert_eq!(s.width, 800);
    assert_eq!(s.height, 600);
    assert!(s.validate().is_ok());
}

#[test]
fn zero_dimensions_are_invalid_configuration() {
    let mut s = ViewportState::default();
    s.width = 0;
    assert_eq!(s.validate(), Err(RenderError::InvalidConfiguration));
    assert_eq!(render_plan(&s, 4), Err(RenderError::InvalidConfiguration));
    assert!(matches!(render(&s, 4), Err(RenderError::InvalidConfiguration)));
    let mut t = ViewportState::default();
    t.height = 0;
    assert_eq!(render_plan(&t, 1), Err(RenderError::InvalidConfiguration));
    assert!(matches!(render(&t, 1), Err(RenderError::InvalidConfiguration)));
}

#[test]
fn advance_iteration_decides_each_case() {
    assert_eq!(advance_iteration(7, 7, false), StepOutcome::Exhausted(7));
    assert_eq!(advance_iteration(7, 7, true), StepOutcome::Exhausted(7));
    assert_eq!(advance_iteration(3, 7, true), StepOutcome::Escaped(3));
    assert_eq!(advance_iteration(3, 7, false), StepOutcome::Continue);
    assert_eq!(advance_iteration(0, 7, true), StepOutcome::Escaped(0));
}

#[test]
fn escape_count_picks_first_true() {
    assert_eq!(escape_count(&vec![false, true, true, false], 4), 1);
    assert_eq!(escape_count(&vec![true, false, false], 3), 0);
    assert_eq!(escape_count(&vec![false, false, false], 3), 3);
    assert_eq!(escape_count(&vec![], 0), 0);
    let long = vec![false; 5000];
    assert!(escape_count(&long, 5000) <= 5000);
}

#[test]
fn classic_traces_match_hand_counts() {
    let p = 2.0;
    let q = 0.5;
    // |0^2 + 4| = 4, not > 4, so the escape fires at step one.
    assert_eq!(
        iterate_fractal(Complex64::new(4.0, 0.0), FractalType::Classic, p, q, 10),
        1
    );
    // 0 -> 1+i (squared magnitude 2) -> 1+3i (squared magnitude 10).
    assert_eq!(
        iterate_fractal(Complex64::new(1.0, 1.0), FractalType::Classic, p, q, 10),
        2
    );
    // -1 cycles between 0 and -1 and never escapes.
    assert_eq!(
        iterate_fractal(Complex64::new(-1.0, 0.0), FractalType::Classic, p, q, 10),
        10
    );
}

#[test]
fn spiral_traces_match_hand_counts() {
    let p = 2.0;
    let q = 0.5;
    assert_eq!(
        iterate_fractal(Complex64::new(4.0, 0.0), FractalType::Spiral, p, q, 10),
        1
    );
    assert_eq!(
        iterate_fractal(Complex64::new(2.0, 2.0), FractalType::Spiral, p, q, 10),
        1
    );
    assert_eq!(
        iterate_fractal(Complex64::new(0.0, 0.0), FractalType::Spiral, p, q, 10),
        10
    );
}

#[test]
fn flower_traces_match_hand_counts() {
    let p = 2.0;
    let q = 0.5;
    // First update maps 0 to c times a unit rotation, magnitude 4.
    assert_eq!(
        iterate_fractal(Complex64::new(4.0, 0.0), FractalType::Flower, p, q, 10),
        1
    );
    assert_eq!(
        iterate_fractal(Complex64::new(2.0, 2.0), FractalType::Flower, p, q, 10),
        1
    );
    assert_eq!(
        iterate_fractal(Complex64::new(0.0, 0.0), FractalType::Flower, p, q, 10),
        10
    );
}

#[test]
fn phoenix_traces_match_hand_counts() {
    let p = 2.0;
    let q = 0.5;
    assert_eq!(
        iterate_fractal(Complex64::new(4.0, 0.0), FractalType::Phoenix, p, q, 10),
        1
    );
    assert_eq!(
        iterate_fractal(Complex64::new(2.0, 2.0), FractalType::Phoenix, p, q, 10),
        1
    );
    assert_eq!(
        iterate_fractal(Complex64::new(0.0, 0.0), FractalType::Phoenix, p, q, 10),
        10
    );
}

#[test]
fn butterfly_zero_guard_never_moves_from_origin() {
    // The polar reconstruction is guarded on a nonzero magnitude, and the
    // starting point is the origin, so the running point never moves and
    // every input exhausts the cap.
    let p = 2.0;
    let q = 0.5;
    for c in [
        Complex64::new(4.0, 0.0),
        Complex64::new(2.0, 2.0),
        Complex64::new(0.0, 0.0),
    ] {
        assert_eq!(iterate_fractal(c, FractalType::Butterfly, p, q, 10), 10);
    }
}

#[test]
fn online_and_offline_counts_agree() {
    let cases = [
        Complex64::new(4.0, 0.0),
        Complex64::new(1.0, 1.0),
        Complex64::new(-1.0, 0.0),
        Complex64::new(0.3, -0.6),
        Complex64::new(2.0, 2.0),
    ];
    let variants = [
        FractalType::Classic,
        FractalType::Spiral,
        FractalType::Flower,
        FractalType::Phoenix,
        FractalType::Butterfly,
    ];
    for &c in &cases {
        for &ft in &variants {
            let online = iterate_fractal(c, ft, 2.5, 0.3, 50);
            let flags = escape_flags(c, ft, 2.5, 0.3, 50);
            let offline = escape_count(&flags, 50);
            assert_eq!(online, offline);
            assert!(offline <= 50);
        }
    }
}

#[test]
fn cap_count_is_always_black() {
    for hue in [0.0f32, 90.0, 217.0, 359.0] {
        let hsv = hsv_to_rgb(hue, 0.8, 0.9);
        assert_eq!(colorize(1000, 1000, hsv), BLACK);
        assert_eq!(colorize(100, 100, hsv), BLACK);
    }
    let red = Rgb { r: 255, g: 0, b: 0 };
    assert_eq!(colorize(999, 1000, red), red);
    assert_eq!(colorize(0, 1000, red), red);
}

#[test]
fn hsv_primary_colors_are_exact() {
    assert_eq!(hsv_to_rgb(0.0, 1.0, 1.0), Rgb { r: 255, g: 0, b: 0 });
    assert_eq!(hsv_to_rgb(120.0, 1.0, 1.0), Rgb { r: 0, g: 255, b: 0 });
    assert_eq!(hsv_to_rgb(240.0, 1.0, 1.0), Rgb { r: 0, g: 0, b: 255 });
}

#[test]
fn hue_sector_boundaries() {
    assert_eq!(hue_sector(-5), 0);
    assert_eq!(hue_sector(0), 0);
    assert_eq!(hue_sector(59), 0);
    assert_eq!(hue_sector(60), 1);
    assert_eq!(hue_sector(119), 1);
    assert_eq!(hue_sector(120), 2);
    assert_eq!(hue_sector(179), 2);
    assert_eq!(hue_sector(180), 3);
    assert_eq!(hue_sector(239), 3);
    assert_eq!(hue_sector(240), 4);
    assert_eq!(hue_sector(299), 4);
    assert_eq!(hue_sector(300), 5);
    assert_eq!(hue_sector(359), 5);
    assert_eq!(hue_sector(400), 5);
}

#[test]
fn arrange_by_sector_patterns() {
    let (c, x, m) = (200u8, 100u8, 10u8);
    assert_eq!(arrange_by_sector(0, c, x, m), Rgb { r: 200, g: 100, b: 10 });
    assert_eq!(arrange_by_sector(1, c, x, m), Rgb { r: 100, g: 200, b: 10 });
    assert_eq!(arrange_by_sector(2, c, x, m), Rgb { r: 10, g: 200, b: 100 });
    assert_eq!(arrange_by_sector(3, c, x, m), Rgb { r: 10, g: 100, b: 200 });
    assert_eq!(arrange_by_sector(4, c, x, m), Rgb { r: 100, g: 10, b: 200 });
    assert_eq!(arrange_by_sector(5, c, x, m), Rgb { r: 200, g: 10, b: 100 });
}

#[test]
fn chunking_covers_rows_exactly() {
    assert_eq!(chunk_size(600, 8), 75);
    assert_eq!(chunk_size(5, 2), 3);
    assert_eq!(chunk_size(1, 4), 1);
    let chunks = row_chunks(600, 8);
    assert_eq!(chunks.len(), 8);
    assert_eq!(chunks[0], (0, 75));
    assert_eq!(chunks[7], (525, 600));
    let mut next: u32 = 0;
    for &(s, e) in &chunks {
        assert_eq!(s, next);
        assert!(s < e);
        next = e;
    }
    assert_eq!(next, 600);
    assert_eq!(row_chunks(5, 2), vec![(0, 3), (3, 5)]);
    assert_eq!(row_chunks(5, 10), vec![(0, 1), (1, 2), (2, 3), (3, 4), (4, 5)]);
    assert_eq!(row_chunks(1, 7), vec![(0, 1)]);
}

#[test]
fn assembly_places_chunks_in_row_order() {
    let chunks = vec![(0u32, 1u32), (1, 2)];
    let c0 = Rgb { r: 1, g: 0, b: 0 };
    let c1 = Rgb { r: 2, g: 0, b: 0 };
    let c2 = Rgb { r: 3, g: 0, b: 0 };
    let c3 = Rgb { r: 4, g: 0, b: 0 };
    let parts = vec![vec![c0, c1], vec![c2, c3]];
    let img = assemble_image(2, 2, &chunks, &parts);
    assert_eq!(img.width, 2);
    assert_eq!(img.height, 2);
    assert_eq!(img.pixels, vec![c0, c1, c2, c3]);
    assert_eq!(img.pixel(0, 0), c0);
    assert_eq!(img.pixel(1, 0), c1);
    assert_eq!(img.pixel(0, 1), c2);
    assert_eq!(img.pixel(1, 1), c3);
}

#[test]
fn render_is_deterministic_for_a_snapshot() {
    let mut s = ViewportState::default();
    s.width = 24;
    s.height = 18;
    s.max_iter = 120;
    let a = render(&s, 4).unwrap();
    let b = render(&s, 4).unwrap();
    assert_eq!(a.pixels, b.pixels);
}

#[test]
fn render_does_not_depend_on_worker_count() {
    let mut s = ViewportState::default();
    s.width = 16;
    s.height = 12;
    s.max_iter = 150;
    let one = render(&s, 1).unwrap();
    for workers in [2u32, 3, 5, 12, 64] {
        let many = render(&s, workers).unwrap();
        assert_eq!(one.pixels, many.pixels);
    }
    let auto = render(&s, effective_worker_count()).unwrap();
    assert_eq!(one.pixels, auto.pixels);
}

#[test]
fn default_window_marks_interior_black_and_exterior_colored() {
    let s = ViewportState::default();
    // The pixel nearest the real axis point minus one lies deep inside
    // the set and must exhaust the cap.
    let c_in = map_pixel(526, 300, &s);
    assert!((c_in.re + 1.0).abs() < 0.25 && c_in.im.abs() < 0.01);
    assert_eq!(pixel_color(526, 300, &s), BLACK);
    // The corner pixel maps far outside the escape radius and must be
    // colored (full saturation and value keep it off black).
    let c_out = map_pixel(799, 599, &s);
    assert!(c_out.norm_sqr() > 4.0);
    assert_ne!(pixel_color(799, 599, &s), BLACK);
}

#[test]
fn small_render_of_default_window() {
    let mut s = ViewportState::default();
    s.width = 80;
    s.height = 60;
    s.max_iter = 100;
    let img = render(&s, effective_worker_count()).unwrap();
    assert_eq!(img.pixels.len(), 80 * 60);
    // Same viewing window as the default: the pixel nearest minus one is
    // inside the period-two bulb, hence black.
    let c_in = map_pixel(53, 30, &s);
    assert!((c_in.re + 1.0).abs() < 0.25 && c_in.im.abs() < 0.01);
    assert_eq!(img.pixel(53, 30), BLACK);
    // The corner escapes immediately and is colored.
    assert_ne!(img.pixel(79, 59), BLACK);
}

#[test]
fn fractal_type_draws_stay_in_the_documented_set() {
    assert_eq!(fractal_type_of_index(0), FractalType::Classic);
    assert_eq!(fractal_type_of_index(1), FractalType::Spiral);
    assert_eq!(fractal_type_of_index(2), FractalType::Flower);
    assert_eq!(fractal_type_of_index(3), FractalType::Phoenix);
    assert_eq!(fractal_type_of_index(4), FractalType::Butterfly);
    for _ in 0..200 {
        let t = random_fractal_type();
        assert!(matches!(
            t,
            FractalType::Classic
                | FractalType::Spiral
                | FractalType::Flower
                | FractalType::Phoenix
                | FractalType::Butterfly
        ));
    }
}
