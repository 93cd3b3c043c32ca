use mandelrust::canvas::CanvasSize;
use mandelrust::color::{color_from_iteration, make_image, Gradient, BLACK, N_COLORS};
use mandelrust::control::{compute, init, update, view, Action, Generator, State};
use mandelrust::evaluate::{
    calculate_all_delta, calculate_all_float, calculate_all_mpfr, pixel_direct, pixel_narrowed,
    point_of_pixel,
};
use mandelrust::fixed::{Fixed, SCALE};

fn fx(num: i64, den: i64) -> Fixed {
    Fixed::from_raw(num * SCALE / den)
}

fn full_view(width: u32, height: u32) -> CanvasSize<Fixed> {
    CanvasSize::new_from_center(width, height, [fx(-1, 2), fx(0, 1)], fx(1, 1)).unwrap()
}

fn shade(k: u32) -> [u8; 3] {
    [k as u8, 255 - k as u8, (k * 7 % 256) as u8]
}

fn gradient() -> Gradient {
    Gradient::new((0..256).map(shade).collect()).unwrap()
}

#[test]
fn a_gradient_has_exactly_n_colors() {
    assert_eq!(N_COLORS, 256);
    assert!(Gradient::new(Vec::new()).is_none());
    assert!(Gradient::new(vec![[1, 2, 3]; 255]).is_none());
    assert!(Gradient::new(vec![[1, 2, 3]; 257]).is_none());
    let g = Gradient::new(vec![[1, 2, 3]; 256]).unwrap();
    assert_eq!(g.color(255), [1, 2, 3]);
    assert_eq!(gradient().color(9), [9, 246, 63]);
}

#[test]
fn the_budget_itself_is_black() {
    let g = gradient();
    assert_eq!(BLACK, [0, 0, 0]);
    for max in [0u32, 1, 255, 256, 257, 1000, u32::MAX] {
        assert_eq!(color_from_iteration(max, max, &g), [0, 0, 0]);
    }
}

#[test]
fn colors_wrap_around_the_gradient() {
    let g = gradient();
    assert_eq!(color_from_iteration(0, 1000, &g), shade(0));
    assert_eq!(color_from_iteration(256, 1000, &g), shade(0));
    assert_eq!(color_from_iteration(5, 1000, &g), shade(5));
    assert_eq!(color_from_iteration(255, 1000, &g), shade(255));
    assert_eq!(color_from_iteration(300, 1000, &g), shade(44));
    assert_eq!(color_from_iteration(u32::MAX, 1000, &g), shade(255));
    for i in 0..700u32 {
        assert_eq!(color_from_iteration(i, 1000, &g), color_from_iteration(i + 256, 1000, &g));
    }
    // where the budget is the number of colours, the count 256 is black
    assert_eq!(color_from_iteration(256, 256, &g), [0, 0, 0]);
    assert_eq!(color_from_iteration(0, 256, &g), shade(0));
}

#[test]
fn pixels_map_to_their_points() {
    let c = full_view(3, 2);
    let expect = [(-2, 1), (-1, 1), (0, 1), (-2, 0), (-1, 0), (0, 0)];
    for (i, e) in expect.iter().enumerate() {
        let p = point_of_pixel(&c, i as u32);
        assert_eq!([p[0].raw(), p[1].raw()], [e.0 * SCALE, e.1 * SCALE]);
    }
}

#[test]
fn a_frame_holds_one_count_per_pixel_in_row_major_order() {
    // the points are -2+i, -1+i, i in the first row and -2, -1, 0 in the second
    let v = calculate_all_mpfr(full_view(3, 2), 20);
    assert_eq!(v, vec![1, 3, 20, 1, 20, 20]);
    let c = full_view(3, 2);
    for i in 0..6u32 {
        assert_eq!(pixel_direct(&c, i, 20), v[i as usize]);
        assert_eq!(pixel_narrowed(&c, i, 20), v[i as usize]);
    }
}

#[test]
fn the_companion_type_gives_the_same_frame_where_it_is_the_same_type() {
    assert_eq!(calculate_all_float(full_view(3, 2), 20), vec![1, 3, 20, 1, 20, 20]);
    assert_eq!(
        calculate_all_float(full_view(30, 20), 50),
        calculate_all_mpfr(full_view(30, 20), 50)
    );
}

#[test]
fn perturbation_gives_the_frame_of_the_direct_algorithm() {
    assert_eq!(calculate_all_delta(full_view(3, 2), 20), vec![1, 3, 20, 1, 20, 20]);
    assert_eq!(
        calculate_all_delta(full_view(30, 20), 50),
        calculate_all_mpfr(full_view(30, 20), 50)
    );
    // a budget of zero: every pixel has the count zero
    assert_eq!(calculate_all_delta(full_view(3, 2), 0), vec![0; 6]);
    assert_eq!(calculate_all_mpfr(full_view(3, 2), 0), vec![0; 6]);
}

#[test]
fn perturbation_inside_the_set_never_escapes() {
    // a small window around -1/8: every point lies in the main cardioid
    let c = CanvasSize::new_from_center(8, 8, [fx(-1, 8), fx(0, 1)], fx(64, 1)).unwrap();
    assert_eq!(calculate_all_delta(c.clone(), 40), vec![40; 64]);
    assert_eq!(calculate_all_mpfr(c, 40), vec![40; 64]);
}

#[test]
fn the_reference_pixel_gets_its_direct_count() {
    // zoomed in by two the top left pixel is -5/4 + i/2, which escapes late
    for zoom in [2, 3, 4, 7] {
        let c = full_view(9, 6).zoom(fx(zoom, 1)).unwrap();
        let direct = calculate_all_mpfr(c.clone(), 60);
        let perturbed = calculate_all_delta(c, 60);
        assert!(direct[0] > 1);
        assert_eq!(perturbed[0], direct[0]);
        assert_eq!(perturbed.len(), 54);
    }
}

#[test]
fn counts_never_exceed_the_budget() {
    for max in [0u32, 1, 2, 7] {
        for n in calculate_all_delta(full_view(12, 8), max) {
            assert!(n <= max);
        }
        for n in calculate_all_mpfr(full_view(12, 8), max) {
            assert!(n <= max);
        }
    }
}

#[test]
fn an_image_is_the_frame_in_colour() {
    let g = gradient();
    let c = full_view(3, 2);
    let data = calculate_all_mpfr(c.clone(), 20);
    let img = make_image(data, c, 20, &g);
    assert_eq!(img.dimensions(), (3, 2));
    let raw = img.into_raw();
    let mut expect: Vec<u8> = Vec::new();
    for color in [shade(1), shade(3), BLACK, shade(1), BLACK, BLACK] {
        expect.extend_from_slice(&color);
    }
    assert_eq!(raw, expect);
}

#[test]
fn an_image_places_each_result_at_its_pixel() {
    let g = gradient();
    let c = full_view(4, 3);
    let data: Vec<u32> = (0..12).collect();
    let img = make_image(data, c, 1000, &g);
    assert_eq!(img.dimensions(), (4, 3));
    let raw = img.into_raw();
    assert_eq!(raw.len(), 36);
    for y in 0..3usize {
        for x in 0..4usize {
            let at = (y * 4 + x) * 3;
            assert_eq!(raw[at..at + 3], shade((y * 4 + x) as u32));
        }
    }
}

#[test]
fn a_cloned_image_is_the_same_image() {
    let g = gradient();
    let c = full_view(3, 2);
    let img = make_image(vec![1, 3, 20, 1, 20, 20], c, 20, &g);
    let copy = img.clone();
    assert_eq!(copy.dimensions(), (3, 2));
    assert_eq!(copy.into_raw(), img.into_raw());
    let h = g.clone();
    for k in 0..256 {
        assert_eq!(h.color(k), shade(k));
    }
}

#[test]
fn a_cloned_session_is_the_same_session() {
    let s = init(full_view(3, 2), 20, gradient());
    let s = update(s, Action::SwitchGenerator);
    let t = s.clone();
    assert_eq!(t.max(), 20);
    assert!(!is_direct(&t));
    assert_eq!(bounds(&t), bounds(&s));
    assert_eq!(view(t).into_raw(), view(s).into_raw());
}

#[test]
fn compute_follows_the_generator() {
    assert_eq!(compute(full_view(3, 2), 20, Generator::Direct), vec![1, 3, 20, 1, 20, 20]);
    assert_eq!(compute(full_view(3, 2), 20, Generator::Perturbation), vec![1, 3, 20, 1, 20, 20]);
}

fn bounds(s: &State<Fixed>) -> [i64; 4] {
    let c = s.canvas();
    [c.top().raw(), c.bottom().raw(), c.left().raw(), c.right().raw()]
}

fn is_direct(s: &State<Fixed>) -> bool {
    matches!(s.generator(), Generator::Direct)
}

#[test]
fn a_session_starts_with_the_direct_algorithm() {
    let s = init(full_view(3, 2), 20, gradient());
    assert_eq!(s.max(), 20);
    assert!(is_direct(&s));
    assert_eq!(bounds(&s), [SCALE, -SCALE, -2 * SCALE, SCALE]);
    let img = view(s);
    assert_eq!(img.dimensions(), (3, 2));
    assert_eq!(img.into_raw()[0..6], [1, 254, 7, 3, 252, 21]);
}

#[test]
fn the_budget_moves_in_steps_of_a_thousand() {
    let s = init(full_view(3, 2), 20, gradient());
    let s = update(s, Action::MaxIterationsDown);
    assert_eq!(s.max(), 20);
    let s = update(s, Action::MaxIterationsUp);
    assert_eq!(s.max(), 1020);
    let s = update(s, Action::MaxIterationsUp);
    assert_eq!(s.max(), 2020);
    let s = update(s, Action::MaxIterationsDown);
    assert_eq!(s.max(), 1020);
    let s = update(s, Action::MaxIterationsDown);
    assert_eq!(s.max(), 20);
    assert_eq!(bounds(&s), [SCALE, -SCALE, -2 * SCALE, SCALE]);
    let s = State::calc(full_view(3, 2), 1000, Generator::Direct, gradient());
    assert_eq!(update(s, Action::MaxIterationsDown).max(), 1000);
    let s = State::calc(full_view(3, 2), 1001, Generator::Direct, gradient());
    assert_eq!(update(s, Action::MaxIterationsDown).max(), 1);
}

#[test]
fn the_generator_switches_back_and_forth() {
    let s = init(full_view(3, 2), 20, gradient());
    let s = update(s, Action::SwitchGenerator);
    assert!(!is_direct(&s));
    assert_eq!(s.max(), 20);
    let s = update(s, Action::SwitchGenerator);
    assert!(is_direct(&s));
}

#[test]
fn zooming_in_centers_on_the_pixel() {
    let s = init(full_view(6, 4), 20, gradient());
    // pixel (2, 1) shows -1 + i/2; one step in makes the width 3/8
    let s = update(s, Action::ZoomIn([2, 1]));
    let c = s.canvas();
    assert_eq!(c.width().raw(), fx(3, 8).raw());
    assert_eq!(c.height().raw(), fx(1, 4).raw());
    let center = c.center();
    assert_eq!([center[0].raw(), center[1].raw()], [fx(-1, 1).raw(), fx(1, 2).raw()]);
    assert_eq!(s.max(), 20);
    // and one step out makes it 3 again
    let s = update(s, Action::ZoomOut);
    assert_eq!(bounds(&s), [fx(3, 2).raw(), fx(-1, 2).raw(), fx(-5, 2).raw(), fx(1, 2).raw()]);
}

#[test]
fn a_precision_the_type_lacks_changes_nothing() {
    let s = init(full_view(3, 2), 20, gradient());
    let s = update(s, Action::PrecisionUp);
    assert_eq!(s.canvas().get_prec(), 32);
    let s = update(s, Action::PrecisionDown);
    assert_eq!(s.canvas().get_prec(), 32);
    assert_eq!(bounds(&s), [SCALE, -SCALE, -2 * SCALE, SCALE]);
}
