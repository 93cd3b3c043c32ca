//! What holds exactly of the engine when it runs on fixed-point numbers.
use vstd::prelude::*;
use crate::scalar::Scalar;
use crate::fixed::Fixed;
use crate::fixed::SCALE;
use crate::canvas::Viewport;
use crate::canvas::cancels;
use crate::canvas::half_extents;
use crate::canvas::lemma_center_of_from_center;
use crate::escape::bounded;
use crate::escape::step_x;
use crate::escape::step_y;
use crate::escape::orbit;
use crate::escape::orbit_from;
use crate::escape::escape_time;
use crate::escape::lemma_orbit_len;
use crate::escape::zero_is_exact;
use crate::escape::two_is_exact;
use crate::escape::lemma_origin_in_set;
use crate::escape::lemma_two_on_radius;
use crate::perturbation::Complex;
use crate::perturbation::Series;
use crate::perturbation::glitched;
use crate::perturbation::narrowed;
use crate::perturbation::delta_orbit;
use crate::perturbation::delta_orbit_from;
use crate::perturbation::correction;
use crate::perturbation::sound_from;
use crate::perturbation::sound_len;
use crate::evaluate::pixel_point;
use crate::evaluate::degenerate;
use crate::evaluate::direct_count;
use crate::evaluate::delta_count;
use crate::evaluate::lemma_direct_count_is_orbit_len;

verus! {

/// Whether `v` is a raw value, so that no operation that yields it saturates.
pub open spec fn in_range(v: int) -> bool {
    i64::MIN <= v <= i64::MAX
}

/// Whether the rectangle with the given half extents around `(cx, cy)` lies
/// within the range of the type, together with its width and height.
pub open spec fn fits_around(cx: Fixed, cy: Fixed, half: (Fixed, Fixed)) -> bool {
    &&& in_range(cx.raw - half.0.raw)
    &&& in_range(cx.raw + half.0.raw)
    &&& in_range(2 * half.0.raw)
    &&& in_range(cy.raw - half.1.raw)
    &&& in_range(cy.raw + half.1.raw)
    &&& in_range(2 * half.1.raw)
}

/// An offset cancels around a fixed-point number as long as nothing
/// saturates on the way.
pub proof fn lemma_cancels(c: Fixed, h: Fixed)
    requires
        in_range(c.raw - h.raw),
        in_range(c.raw + h.raw),
        in_range(2 * h.raw),
    ensures
        cancels(c, h),
{
    assert(c.add_spec(h).sub_spec(c.sub_spec(h)).raw == 2 * h.raw);
    assert((2 * h.raw) * 1 / 2 == h.raw);
}

/// A viewport laid out around a center has exactly that center, as long as
/// its rectangle fits the range of the type.
pub proof fn lemma_from_center_center(
    pixel_width: u32,
    pixel_height: u32,
    cx: Fixed,
    cy: Fixed,
    zoom: Fixed,
)
    requires
        fits_around(cx, cy, half_extents(pixel_width, pixel_height, zoom)),
    ensures
        Viewport::from_center(pixel_width, pixel_height, cx, cy, zoom).center() == (cx, cy),
{
    let half = half_extents(pixel_width, pixel_height, zoom);
    lemma_cancels(cx, half.0);
    lemma_cancels(cy, half.1);
    lemma_center_of_from_center(pixel_width, pixel_height, cx, cy, zoom);
}

/// Moving the center of a viewport puts the center exactly where it was
/// asked for, as long as the new rectangle fits the range of the type.
pub proof fn lemma_move_center_center(v: Viewport<Fixed>, cx: Fixed, cy: Fixed)
    requires
        fits_around(cx, cy, half_extents(v.pixel_width, v.pixel_height, v.zoom_factor())),
    ensures
        v.recentered(cx, cy).center() == (cx, cy),
{
    lemma_from_center_center(v.pixel_width, v.pixel_height, cx, cy, v.zoom_factor());
}

/// Zooming keeps the center of a viewport exactly, as long as the new
/// rectangle fits the range of the type.
pub proof fn lemma_zoom_keeps_center(v: Viewport<Fixed>, factor: Fixed)
    requires
        fits_around(
            v.center().0,
            v.center().1,
            half_extents(v.pixel_width, v.pixel_height, v.zoom_factor().mul_spec(factor)),
        ),
    ensures
        v.zoomed(factor).center() == v.center(),
{
    lemma_from_center_center(
        v.pixel_width,
        v.pixel_height,
        v.center().0,
        v.center().1,
        v.zoom_factor().mul_spec(factor),
    );
}

/// The first pixel shows the top left corner of the rectangle.
pub proof fn lemma_first_pixel_is_top_left(v: Viewport<Fixed>)
    requires
        v.pixel_width > 0,
        v.pixel_height > 0,
    ensures
        v.coordinates(0, 0) == (v.left, v.top),
{
    let w = v.right.sub_spec(v.left).raw as int;
    let h = v.bottom.sub_spec(v.top).raw as int;
    assert(w * 0 == 0 && h * 0 == 0) by (nonlinear_arith);
    assert(0int / (v.pixel_width as int) == 0 && 0int / (v.pixel_height as int) == 0);
}

/// Every pixel of a valid viewport shows a point of its rectangle: from the
/// left bound up to, but not including, the right one, and from the top bound
/// down to the bottom one. This holds as long as the width and the height of
/// the rectangle fit the range of the type.
pub proof fn lemma_pixel_inside(v: Viewport<Fixed>, px: u32, py: u32)
    requires
        v.valid(),
        v.on_grid(px, py),
        in_range(v.right.raw - v.left.raw),
        in_range(v.bottom.raw - v.top.raw),
    ensures
        v.left.raw <= v.coordinates(px, py).0.raw < v.right.raw,
        v.bottom.raw <= v.coordinates(px, py).1.raw <= v.top.raw,
{
    let w = v.right.raw - v.left.raw;
    let pw = v.pixel_width as int;
    let x = px as int;
    assert(0 <= (w * x) / pw < w) by (nonlinear_arith)
        requires
            w > 0,
            0 <= x < pw,
    {
        assert(0 <= w * x < w * pw);
        assert(w * x == pw * ((w * x) / pw) + (w * x) % pw);
        assert(0 <= (w * x) % pw < pw);
    }
    let h = v.bottom.raw - v.top.raw;
    let ph = v.pixel_height as int;
    let y = py as int;
    assert(h <= (h * y) / ph <= 0) by (nonlinear_arith)
        requires
            h < 0,
            0 <= y < ph,
    {
        assert(h * ph < h * y <= 0);
        assert(h * y == ph * ((h * y) / ph) + (h * y) % ph);
        assert(0 <= (h * y) % ph < ph);
    }
}

/// A product with zero is zero.
pub proof fn lemma_mul_zero(a: Fixed)
    ensures
        a.mul_spec(Fixed { raw: 0 }) == (Fixed { raw: 0 }),
        (Fixed { raw: 0 }).mul_spec(a) == (Fixed { raw: 0 }),
{
    assert(a.raw * 0 == 0 && 0 * a.raw == 0) by (nonlinear_arith);
    assert(0int / (SCALE as int) == 0);
}

/// Fixed-point numbers compute with zero and with two exactly.
pub proof fn lemma_small_integers_exact()
    ensures
        zero_is_exact::<Fixed>(),
        two_is_exact::<Fixed>(),
        Fixed::from_u32_spec(0) == (Fixed { raw: 0 }),
        Fixed::from_u32_spec(2) == (Fixed { raw: 0x2_0000_0000 }),
{
    let zero = Fixed { raw: 0 };
    let two = Fixed { raw: 0x2_0000_0000 };
    assert(Fixed::from_u32_spec(0) == zero);
    assert(Fixed::from_u32_spec(2) == two);
    assert(Fixed::from_u32_spec(4).raw == 4 * SCALE);
    lemma_mul_zero(zero);
    lemma_mul_zero(two);
    assert((2 * SCALE) * (2 * SCALE) / (SCALE as int) == 4 * SCALE) by (nonlinear_arith)
        requires
            SCALE == 0x1_0000_0000,
    ;
    assert(two.mul_spec(two).raw == 4 * SCALE);
}

/// The origin lies in the set: whatever the budget, its orbit uses all of it
/// and the escape time is `None`.
pub proof fn lemma_origin_never_escapes(max_iterations: u32)
    ensures
        orbit(Fixed { raw: 0 }, Fixed { raw: 0 }, max_iterations as nat).len() == max_iterations,
        escape_time(Fixed { raw: 0 }, Fixed { raw: 0 }, max_iterations) == None::<u32>,
{
    lemma_small_integers_exact();
    lemma_origin_in_set::<Fixed>(max_iterations);
}

/// The point 2 lies on the escape radius: with a budget of two or more its
/// escape time is 1.
pub proof fn lemma_two_escapes_at_once(max_iterations: u32)
    requires
        max_iterations >= 2,
    ensures
        escape_time(Fixed { raw: 0x2_0000_0000 }, Fixed { raw: 0 }, max_iterations) == Some(1u32),
{
    lemma_small_integers_exact();
    lemma_two_on_radius::<Fixed>(max_iterations);
}

/// Every iterate of an orbit that has a successor lies inside the escape
/// radius, and an orbit whose last iterate lies inside it has used up its
/// budget.
pub proof fn lemma_orbit_inside(x0: Fixed, y0: Fixed, x: Fixed, y: Fixed, budget: nat)
    ensures
        forall|j: int|
            0 <= j < orbit_from(x0, y0, x, y, budget).len() - 1 ==> bounded(
                (#[trigger] orbit_from(x0, y0, x, y, budget)[j]).0,
                orbit_from(x0, y0, x, y, budget)[j].1,
            ),
        ({
            let o = orbit_from(x0, y0, x, y, budget);
            o.len() > 0 && bounded(o.last().0, o.last().1) ==> o.len() == budget
        }),
    decreases budget,
{
    let o = orbit_from(x0, y0, x, y, budget);
    if budget > 0 && bounded(x, y) {
        let xn = step_x(x, y, x0);
        let yn = step_y(x, y, y0);
        if x.same_spec(xn) && y.same_spec(yn) {
            assert(xn == x && yn == y);
            assert(o.len() == budget);
            assert forall|j: int| 0 <= j < o.len() implies #[trigger] o[j] == (x, y) by {}
        } else {
            let rest = orbit_from(x0, y0, xn, yn, (budget - 1) as nat);
            lemma_orbit_inside(x0, y0, xn, yn, (budget - 1) as nat);
            assert(o == seq![(xn, yn)] + rest);
            assert forall|j: int| 0 <= j < o.len() - 1 implies bounded(
                (#[trigger] o[j]).0,
                o[j].1,
            ) by {
                if j > 0 {
                    assert(o[j] == rest[j - 1]);
                }
            }
            if rest.len() > 0 {
                assert(o.last() == rest.last());
            }
        }
    }
}

/// The series vanishes at the offset zero, whatever its coefficients.
pub proof fn lemma_series_at_zero(k: Series<Fixed>)
    ensures
        k.value(Complex { re: Fixed { raw: 0 }, im: Fixed { raw: 0 } }) == (Complex {
            re: Fixed { raw: 0 },
            im: Fixed { raw: 0 },
        }),
{
    let zero = Fixed { raw: 0 };
    lemma_mul_zero(k.a.re);
    lemma_mul_zero(k.a.im);
    lemma_mul_zero(k.b.re);
    lemma_mul_zero(k.b.im);
    lemma_mul_zero(k.c.re);
    lemma_mul_zero(k.c.im);
    lemma_mul_zero(zero);
    let nought = Complex { re: zero, im: zero };
    assert(k.a.mul_spec(nought) == nought);
    assert(k.b.mul_spec(nought) == nought);
    assert(k.c.mul_spec(nought) == nought);
    assert(nought.mul_spec(nought) == nought);
}

/// A squared modulus is never negative.
pub proof fn lemma_norm_sqr_not_negative(z: Complex<Fixed>)
    ensures
        z.norm_sqr_spec().raw >= 0,
{
    assert(z.re.raw * z.re.raw >= 0 && z.im.raw * z.im.raw >= 0) by (nonlinear_arith);
    assert((z.re.raw * z.re.raw) / (SCALE as int) >= 0 && (z.im.raw * z.im.raw) / (SCALE as int)
        >= 0) by (nonlinear_arith)
        requires
            z.re.raw * z.re.raw >= 0,
            z.im.raw * z.im.raw >= 0,
            SCALE == 0x1_0000_0000,
    ;
}

/// At the offset zero the estimates are the reference iterates themselves, as
/// long as all of these but the last lie inside the escape radius.
pub proof fn lemma_zero_offset(reference: Seq<(Fixed, Fixed)>, k: Series<Fixed>, i: nat)
    requires
        i <= reference.len(),
        forall|j: int|
            i <= j < reference.len() - 1 ==> bounded((#[trigger] reference[j]).0, reference[j].1),
    ensures
        delta_orbit_from(
            reference,
            Complex { re: Fixed { raw: 0 }, im: Fixed { raw: 0 } },
            k,
            i,
        ) == reference.subrange(i as int, reference.len() as int),
    decreases reference.len() - i,
{
    let zero = Fixed { raw: 0 };
    let nought = Complex { re: zero, im: zero };
    let tail = reference.subrange(i as int, reference.len() as int);
    if i < reference.len() {
        let z = narrowed(reference, i as int);
        lemma_series_at_zero(k);
        assert(z.add_spec(nought) == z);
        assert(reference[i as int] == (z.re, z.im));
        if bounded(z.re, z.im) {
            lemma_zero_offset(reference, k.advance(z), i + 1);
            let rest = reference.subrange(i as int + 1, reference.len() as int);
            assert(tail =~= seq![(z.re, z.im)] + rest);
        } else {
            assert(i == reference.len() - 1);
            assert(tail =~= seq![(z.re, z.im)]);
        }
    } else {
        assert(tail =~= Seq::<(Fixed, Fixed)>::empty());
    }
}

/// At the offset zero the estimates for an orbit are that orbit.
pub proof fn lemma_zero_offset_follows_orbit(x0: Fixed, y0: Fixed, budget: nat)
    ensures
        delta_orbit::<Fixed>(orbit(x0, y0, budget), Fixed { raw: 0 }, Fixed { raw: 0 }) == orbit(
            x0,
            y0,
            budget,
        ),
{
    let zero = Fixed { raw: 0 };
    let reference = orbit(x0, y0, budget);
    assert(Fixed::from_u32_spec(0) == zero);
    lemma_orbit_inside(x0, y0, zero, zero, budget);
    lemma_zero_offset(reference, Series::initial(), 0);
    assert(reference.subrange(0, reference.len() as int) =~= reference);
}

/// Estimates that are the reference iterates themselves are free of
/// glitches: their corrections are zero.
pub proof fn lemma_reference_is_sound(reference: Seq<(Fixed, Fixed)>, i: nat)
    requires
        i <= reference.len(),
    ensures
        sound_from::<Fixed>(reference, reference, i) == reference.len(),
    decreases reference.len() - i,
{
    if i < reference.len() {
        let zero = Fixed { raw: 0 };
        let z = narrowed(reference, i as int);
        lemma_mul_zero(zero);
        lemma_norm_sqr_not_negative(z);
        assert(correction::<Fixed>(reference, reference, i as int) == (Complex {
            re: zero,
            im: zero,
        }));
        assert(!glitched(correction::<Fixed>(reference, reference, i as int), z));
        lemma_reference_is_sound(reference, i + 1);
    }
}

/// The reference pixel gets by perturbation the result of its own precise
/// iteration.
pub proof fn lemma_reference_pixel(v: Viewport<Fixed>, max_iterations: u32)
    ensures
        delta_count(v, 0, max_iterations) == direct_count(v, 0, max_iterations),
{
    let c = pixel_point(v, 0);
    let zero = Fixed { raw: 0 };
    let reference = orbit(c.0, c.1, max_iterations as nat);
    lemma_direct_count_is_orbit_len(v, 0, max_iterations);
    if !degenerate(reference) {
        assert(Fixed::from_u32_spec(0) == zero);
        assert(Fixed::from_u32_spec(1).raw == SCALE);
        lemma_orbit_inside(c.0, c.1, zero, zero, max_iterations as nat);
        lemma_orbit_len(c.0, c.1, zero, zero, max_iterations as nat);
        assert(c.0.sub_spec(c.0) == zero && c.1.sub_spec(c.1) == zero);
        lemma_zero_offset(reference, Series::initial(), 0);
        let estimates = delta_orbit::<Fixed>(reference, zero, zero);
        assert(reference.subrange(0, reference.len() as int) =~= reference);
        assert(estimates == reference);
        lemma_reference_is_sound(reference, 0);
        assert(sound_len::<Fixed>(reference, estimates) == reference.len());
        if bounded(reference.last().0, reference.last().1) {
            assert(reference.len() == max_iterations);
            assert(orbit_from(c.0, c.1, reference.last().0, reference.last().1, 0).len() == 0);
        }
    }
}

} // verus!
