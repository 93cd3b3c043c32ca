use mandelrust::escape::{is_bounded, iterate, iterate_all, iterate_all_start};
use mandelrust::fixed::{Fixed, SCALE};

fn fx(num: i64, den: i64) -> Fixed {
    Fixed::from_raw(num * SCALE / den)
}

fn raws(v: &Vec<(Fixed, Fixed)>) -> Vec<(i64, i64)> {
    v.iter().map(|p| (p.0.raw(), p.1.raw())).collect()
}

fn pt(x: (i64, i64), y: (i64, i64)) -> (i64, i64) {
    (fx(x.0, x.1).raw(), fx(y.0, y.1).raw())
}

#[test]
fn the_escape_radius_is_two() {
    assert!(is_bounded(&fx(0, 1), &fx(0, 1)));
    assert!(is_bounded(&fx(1, 1), &fx(1, 1)));
    assert!(is_bounded(&fx(-3, 2), &fx(1, 1)));
    assert!(!is_bounded(&fx(2, 1), &fx(0, 1)));
    assert!(!is_bounded(&fx(0, 1), &fx(-2, 1)));
    assert!(!is_bounded(&fx(-2, 1), &fx(1, 1)));
    // just inside the circle
    assert!(is_bounded(&Fixed::from_raw(2 * SCALE - 1), &fx(0, 1)));
}

#[test]
fn origin_is_in_the_set_for_any_budget() {
    for max in [0u32, 1, 2, 3, 100, 5000] {
        assert_eq!(iterate(fx(0, 1), fx(0, 1), max), None);
        assert_eq!(iterate_all(fx(0, 1), fx(0, 1), max).len(), max as usize);
    }
}

#[test]
fn two_escapes_after_one_iteration() {
    assert_eq!(iterate(fx(2, 1), fx(0, 1), 2), Some(1));
    assert_eq!(iterate(fx(2, 1), fx(0, 1), 1000), Some(1));
    assert_eq!(raws(&iterate_all(fx(2, 1), fx(0, 1), 1000)), vec![pt((2, 1), (0, 1))]);
}

#[test]
fn an_escape_on_the_last_iteration_counts_as_none() {
    // the orbit of 2 has one iterate: with a budget of one it uses it up
    assert_eq!(iterate(fx(2, 1), fx(0, 1), 1), None);
    // the orbit of 1 is 1, 2: it escapes after two
    assert_eq!(iterate(fx(1, 1), fx(0, 1), 3), Some(2));
    assert_eq!(iterate(fx(1, 1), fx(0, 1), 2), None);
    assert_eq!(iterate(fx(1, 1), fx(0, 1), 1), None);
    assert_eq!(iterate(fx(1, 1), fx(0, 1), 0), None);
}

#[test]
fn iterates_follow_the_recurrence() {
    // c = 1/2 + i/2: z1 = c, z2 = 1/2 + i, z3 = -1/4 + 3i/2, z4 escapes
    let v = iterate_all(fx(1, 2), fx(1, 2), 10);
    assert_eq!(
        raws(&v),
        vec![
            pt((1, 2), (1, 2)),
            pt((1, 2), (1, 1)),
            pt((-1, 4), (3, 2)),
            pt((-27, 16), (-1, 4)),
            pt((841, 256), (43, 32)),
        ]
    );
    assert_eq!(iterate(fx(1, 2), fx(1, 2), 10), Some(5));
}

#[test]
fn a_periodic_orbit_runs_to_the_budget() {
    // c = -1: the orbit alternates between -1 and 0
    let v = iterate_all(fx(-1, 1), fx(0, 1), 6);
    let a = pt((-1, 1), (0, 1));
    let b = pt((0, 1), (0, 1));
    assert_eq!(raws(&v), vec![a, b, a, b, a, b]);
    assert_eq!(iterate(fx(-1, 1), fx(0, 1), 6), None);
}

#[test]
fn a_fixed_point_fills_the_budget() {
    // c = -2 from z = 2: z*z + c = 2 again, but 2 is outside the radius
    assert_eq!(iterate_all_start(fx(-2, 1), fx(0, 1), fx(2, 1), fx(0, 1), 5).len(), 0);
    // c = -3/4 from z = -1/2: z*z + c = -1/2, a fixed point inside the radius
    let v = iterate_all_start(fx(-3, 4), fx(0, 1), fx(-1, 2), fx(0, 1), 5);
    assert_eq!(raws(&v), vec![pt((-1, 2), (0, 1)); 5]);
    // c = 0 from z = 0
    let v = iterate_all(fx(0, 1), fx(0, 1), 4);
    assert_eq!(raws(&v), vec![(0, 0); 4]);
}

#[test]
fn iteration_can_start_anywhere() {
    // c = 1/2 + i/2 from z = 1/2 + i: the tail of the orbit from the origin
    let v = iterate_all_start(fx(1, 2), fx(1, 2), fx(1, 2), fx(1, 1), 10);
    assert_eq!(
        raws(&v),
        vec![pt((-1, 4), (3, 2)), pt((-27, 16), (-1, 4)), pt((841, 256), (43, 32))]
    );
    // with a budget of two only the first two
    let v = iterate_all_start(fx(1, 2), fx(1, 2), fx(1, 2), fx(1, 1), 2);
    assert_eq!(raws(&v), vec![pt((-1, 4), (3, 2)), pt((-27, 16), (-1, 4))]);
    // from outside the radius nothing
    let v = iterate_all_start(fx(1, 2), fx(1, 2), fx(2, 1), fx(0, 1), 10);
    assert!(v.is_empty());
    // with no budget nothing
    let v = iterate_all_start(fx(1, 2), fx(1, 2), fx(0, 1), fx(0, 1), 0);
    assert!(v.is_empty());
}
