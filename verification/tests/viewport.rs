use mandelrust::canvas::CanvasSize;
use mandelrust::color::Gradient;
use mandelrust::control::{init, update, Action};
use mandelrust::escape::{iterate, iterate_all};
use mandelrust::evaluate::{calculate_all_delta, calculate_all_float, calculate_all_mpfr};
use mandelrust::perturbation::{first_glitch, iterate_delta};
use mandelrust::scalar::{Approx, Scalar};

/// A floating-point number that carries a precision tag the way an
/// arbitrary-precision number does: a result is as precise as the more
/// precise of its operands.
#[derive(Clone, Copy, Debug)]
struct Mp {
    v: f64,
    prec: usize,
}

impl PartialEq for Mp {
    fn eq(&self, other: &Mp) -> bool {
        self.v == other.v
    }
}

fn mp(v: f64) -> Mp {
    Mp { v, prec: 53 }
}

fn join(a: Mp, b: Mp, v: f64) -> Mp {
    Mp { v, prec: a.prec.max(b.prec) }
}

impl Scalar for Mp {
    fn from_u32_spec(n: u32) -> Self {
        mp(n as f64)
    }
    fn add_spec(self, rhs: Self) -> Self {
        join(self, rhs, self.v + rhs.v)
    }
    fn sub_spec(self, rhs: Self) -> Self {
        join(self, rhs, self.v - rhs.v)
    }
    fn mul_spec(self, rhs: Self) -> Self {
        join(self, rhs, self.v * rhs.v)
    }
    fn div_spec(self, rhs: Self) -> Self {
        join(self, rhs, self.v / rhs.v)
    }
    fn neg_spec(self) -> Self {
        Mp { v: -self.v, prec: self.prec }
    }
    fn scale_spec(self, num: u32, den: u32) -> Self {
        Mp { v: self.v * (num as f64 / den as f64), prec: self.prec }
    }
    fn lt_spec(self, rhs: Self) -> bool {
        self.v < rhs.v
    }
    fn same_spec(self, rhs: Self) -> bool {
        self.v == rhs.v
    }
    fn prec_spec(self) -> usize {
        self.prec
    }
    fn with_prec_spec(self, bits: usize) -> Option<Self> {
        if bits >= 1 {
            Some(Mp { v: self.v, prec: bits })
        } else {
            None
        }
    }
    fn from_u32(n: u32) -> Self {
        Self::from_u32_spec(n)
    }
    fn add(&self, rhs: &Self) -> Self {
        self.add_spec(*rhs)
    }
    fn sub(&self, rhs: &Self) -> Self {
        self.sub_spec(*rhs)
    }
    fn mul(&self, rhs: &Self) -> Self {
        self.mul_spec(*rhs)
    }
    fn div(&self, rhs: &Self) -> Self {
        self.div_spec(*rhs)
    }
    fn neg(&self) -> Self {
        self.neg_spec()
    }
    fn scale(&self, num: u32, den: u32) -> Self {
        self.scale_spec(num, den)
    }
    fn lt(&self, rhs: &Self) -> bool {
        self.lt_spec(*rhs)
    }
    fn same(&self, rhs: &Self) -> bool {
        self.same_spec(*rhs)
    }
    fn prec(&self) -> usize {
        self.prec
    }
    fn with_prec(&self, bits: usize) -> Option<Self> {
        self.with_prec_spec(bits)
    }
    fn dup(&self) -> Self {
        *self
    }
}

/// A plain double, the companion of `Mp`.
#[derive(Clone, Copy, Debug, PartialEq)]
struct Lo(f64);

impl Scalar for Lo {
    fn from_u32_spec(n: u32) -> Self {
        Lo(n as f64)
    }
    fn add_spec(self, rhs: Self) -> Self {
        Lo(self.0 + rhs.0)
    }
    fn sub_spec(self, rhs: Self) -> Self {
        Lo(self.0 - rhs.0)
    }
    fn mul_spec(self, rhs: Self) -> Self {
        Lo(self.0 * rhs.0)
    }
    fn div_spec(self, rhs: Self) -> Self {
        Lo(self.0 / rhs.0)
    }
    fn neg_spec(self) -> Self {
        Lo(-self.0)
    }
    fn scale_spec(self, num: u32, den: u32) -> Self {
        Lo(self.0 * (num as f64 / den as f64))
    }
    fn lt_spec(self, rhs: Self) -> bool {
        self.0 < rhs.0
    }
    fn same_spec(self, rhs: Self) -> bool {
        self.0 == rhs.0
    }
    fn prec_spec(self) -> usize {
        53
    }
    fn with_prec_spec(self, bits: usize) -> Option<Self> {
        if bits == 53 {
            Some(self)
        } else {
            None
        }
    }
    fn from_u32(n: u32) -> Self {
        Self::from_u32_spec(n)
    }
    fn add(&self, rhs: &Self) -> Self {
        self.add_spec(*rhs)
    }
    fn sub(&self, rhs: &Self) -> Self {
        self.sub_spec(*rhs)
    }
    fn mul(&self, rhs: &Self) -> Self {
        self.mul_spec(*rhs)
    }
    fn div(&self, rhs: &Self) -> Self {
        self.div_spec(*rhs)
    }
    fn neg(&self) -> Self {
        self.neg_spec()
    }
    fn scale(&self, num: u32, den: u32) -> Self {
        self.scale_spec(num, den)
    }
    fn lt(&self, rhs: &Self) -> bool {
        self.lt_spec(*rhs)
    }
    fn same(&self, rhs: &Self) -> bool {
        self.same_spec(*rhs)
    }
    fn prec(&self) -> usize {
        53
    }
    fn with_prec(&self, bits: usize) -> Option<Self> {
        self.with_prec_spec(bits)
    }
    fn dup(&self) -> Self {
        *self
    }
}

impl Approx for Mp {
    type Low = Lo;

    fn narrow_spec(self) -> Lo {
        Lo(self.v)
    }
    fn widen_spec(low: Lo) -> Mp {
        mp(low.0)
    }
    fn narrow(&self) -> Lo {
        Lo(self.v)
    }
    fn widen(low: &Lo) -> Mp {
        mp(low.0)
    }
}

fn full_view(width: u32, height: u32) -> CanvasSize<Mp> {
    CanvasSize::new_from_center(width, height, [mp(-0.5), mp(0.0)], mp(1.0)).unwrap()
}

#[test]
fn new_canvas_size() {
    let c = CanvasSize::new(900, 600, mp(1.0), mp(-1.0), mp(-2.0), mp(1.0));

    assert_eq!(*c.top(), mp(1.0));
    assert_eq!(*c.bottom(), mp(-1.0));
    assert_eq!(*c.left(), mp(-2.0));
    assert_eq!(*c.right(), mp(1.0));
    assert_eq!(c.height(), mp(2.0));
    assert_eq!(c.width(), mp(3.0));
}

#[test]
fn new_canvas_size_from_center() {
    let c = CanvasSize::new_from_center(900, 600, [mp(-0.5), mp(0.0)], mp(1.0)).unwrap();

    assert_eq!(*c.top(), mp(1.0));
    assert_eq!(*c.bottom(), mp(-1.0));
    assert_eq!(*c.left(), mp(-2.0));
    assert_eq!(*c.right(), mp(1.0));
    assert_eq!(c.height(), mp(2.0));
    assert_eq!(c.width(), mp(3.0));
}

#[test]
fn new_canvas_size_from_center_and_zoom() {
    let c = CanvasSize::new_from_center(900, 600, [mp(-0.5), mp(0.0)], mp(2.0)).unwrap();

    assert_eq!(*c.top(), mp(0.5));
    assert_eq!(*c.bottom(), mp(-0.5));
    assert_eq!(*c.left(), mp(-1.25));
    assert_eq!(*c.right(), mp(0.25));
    assert_eq!(c.height(), mp(1.0));
    assert_eq!(c.width(), mp(1.5));
}

#[test]
fn test_center() {
    let c = full_view(900, 600);

    assert_eq!(c.center(), [mp(-0.5), mp(0.0)]);
}

#[test]
fn test_width_and_height() {
    let c = full_view(900, 600);

    assert_eq!(c.width(), mp(3.0));
    assert_eq!(c.height(), mp(2.0));
}

#[test]
fn test_to_zoom() {
    let c = full_view(900, 600);
    let zoomed = c.zoom(mp(2.0)).unwrap();

    assert_eq!(zoomed.center(), [mp(-0.5), mp(0.0)]);
    assert_eq!(zoomed.height(), mp(1.0));
    assert_eq!(zoomed.width(), mp(1.5));

    let zoomed_again = zoomed.zoom(mp(2.0)).unwrap();
    assert_eq!(zoomed_again.center(), [mp(-0.5), mp(0.0)]);
    assert_eq!(zoomed_again.height(), mp(0.5));
    assert_eq!(zoomed_again.width(), mp(0.75));
}

#[test]
fn test_move_center() {
    let c = full_view(900, 600);

    assert_eq!(
        c.move_center([mp(0.0), mp(-1.0)]).unwrap().center(),
        [mp(0.0), mp(-1.0)]
    );
}

#[test]
fn test_pixel_count() {
    let c = full_view(2, 3);

    assert_eq!(c.pixel_count(), 6);
}

#[test]
fn test_iterate_all() {
    let c = full_view(2, 3);
    let x = c.center()[0];
    let y = c.center()[1];
    let v = iterate_all::<Mp>(x, y, 10);

    assert_eq!(v.len(), 10);
}

#[test]
fn test_iterate_all_prec() {
    let prec = 128;
    let c = full_view(2, 3).set_prec(prec).unwrap();
    let x = c.center()[0];
    let y = c.center()[1];
    let v = iterate_all::<Mp>(x, y, 10);

    assert_eq!(v[9].0.prec(), prec);
    assert_eq!(v[9].1.prec(), prec);
}

#[test]
fn zoom_in_and_out_restores_the_bounds() {
    let c = full_view(900, 600);
    let back = c.zoom(mp(2.0)).unwrap().zoom(mp(0.5)).unwrap();

    assert_eq!(*back.top(), mp(1.0));
    assert_eq!(*back.bottom(), mp(-1.0));
    assert_eq!(*back.left(), mp(-2.0));
    assert_eq!(*back.right(), mp(1.0));
}

#[test]
fn origin_never_escapes() {
    for max in [0u32, 1, 2, 10, 1000] {
        assert_eq!(iterate::<Mp>(mp(0.0), mp(0.0), max), None);
    }
}

#[test]
fn point_on_the_escape_radius_escapes_at_once() {
    assert_eq!(iterate::<Mp>(mp(2.0), mp(0.0), 100), Some(1));
}

#[test]
fn precision_is_carried_by_all_four_bounds() {
    let c = full_view(900, 600);
    assert_eq!(c.get_prec(), 53);
    let d = c.set_prec(200).unwrap();
    assert_eq!(d.get_prec(), 200);
    for bound in [d.top(), d.bottom(), d.left(), d.right()] {
        assert_eq!(bound.prec(), 200);
    }
    assert_eq!(*d.top(), mp(1.0));
    assert_eq!(*d.left(), mp(-2.0));
    assert_eq!(d.coordinates([0, 0])[0].prec(), 200);
    assert!(c.set_prec(0).is_none());
}

#[test]
fn frames_agree_across_the_three_evaluations() {
    let expect = vec![1, 3, 20, 1, 20, 20];
    assert_eq!(calculate_all_mpfr(full_view(3, 2), 20), expect);
    assert_eq!(calculate_all_float(full_view(3, 2), 20), expect);
    assert_eq!(calculate_all_delta(full_view(3, 2), 20), expect);
}

#[test]
fn precision_doubles_and_halves() {
    let gradient = Gradient::new(vec![[9, 9, 9]; 256]).unwrap();
    let s = init(full_view(3, 2), 20, gradient);
    let s = update(s, Action::PrecisionUp);
    assert_eq!(s.canvas().get_prec(), 106);
    let s = update(s, Action::PrecisionDown);
    assert_eq!(s.canvas().get_prec(), 53);
    let s = update(s, Action::PrecisionDown);
    assert_eq!(s.canvas().get_prec(), 26);
    assert_eq!(*s.canvas().right(), mp(1.0));
    assert_eq!(s.max(), 20);
}

#[test]
fn degenerate_zooms_are_rejected() {
    // a zoom of zero gives an infinite rectangle, whose bounds are still in order
    assert!(CanvasSize::new_from_center(900, 600, [mp(-0.5), mp(0.0)], mp(0.0)).is_some());
    // bounds that are not numbers are in no order
    assert!(CanvasSize::new_from_center(900, 600, [mp(-0.5), mp(0.0)], mp(f64::NAN)).is_none());
    assert!(CanvasSize::new_from_center(900, 600, [mp(-0.5), mp(0.0)], mp(-1.0)).is_none());
    // a zoom beyond the resolution of the type: left and right coincide
    assert!(CanvasSize::new_from_center(900, 600, [mp(-0.5), mp(0.0)], mp(1e300)).is_none());
    assert!(full_view(900, 600).zoom(mp(1e300)).is_none());
}

#[test]
fn a_center_that_is_no_number_is_rejected() {
    let c = full_view(900, 600);
    assert!(c.move_center([mp(f64::NAN), mp(0.0)]).is_none());
    assert!(c.move_center([mp(0.0), mp(f64::INFINITY)]).is_none());
    assert!(c.move_center([mp(1e300), mp(0.0)]).is_none());
    // an infinite rectangle has no pixel to center on
    let wide = CanvasSize::new_from_center(900, 600, [mp(-0.5), mp(0.0)], mp(0.0)).unwrap();
    assert!(wide.move_center_to_pixel([450, 300]).is_none());
    assert!(c.move_center_to_pixel([450, 300]).is_some());
}

#[test]
fn zero_offset_follows_the_reference_orbit() {
    let reference = iterate_all::<Mp>(mp(0.0), mp(0.0), 10);
    let v = iterate_delta(&reference, Lo(0.0), Lo(0.0));
    assert_eq!(v, vec![(Lo(0.0), Lo(0.0)); 10]);
    assert_eq!(first_glitch(&reference, &v), 10);

    let reference = iterate_all::<Mp>(mp(-0.5), mp(0.25), 25);
    assert_eq!(reference.len(), 25);
    let v = iterate_delta(&reference, Lo(0.0), Lo(0.0));
    assert_eq!(v.len(), 25);
    for (estimate, iterate) in v.iter().zip(reference.iter()) {
        assert_eq!((estimate.0 .0, estimate.1 .0), (iterate.0.v, iterate.1.v));
    }
    assert_eq!(first_glitch(&reference, &v), 25);
}
