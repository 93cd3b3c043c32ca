//! Perturbation: orbits computed as small corrections to one reference orbit.
use vstd::prelude::*;
use crate::scalar::Scalar;
use crate::scalar::Approx;
use crate::escape::bounded;
use crate::escape::is_bounded;

verus! {

/// A complex number with real part `re` and imaginary part `im`.
pub struct Complex<T> {
    pub re: T,
    pub im: T,
}

impl<T: Scalar> Complex<T> {
    /// The complex number that stands for the non-negative integer `n`.
    pub open spec fn from_u32_spec(n: u32) -> Self {
        Complex { re: T::from_u32_spec(n), im: T::from_u32_spec(0) }
    }

    /// Componentwise sum.
    pub open spec fn add_spec(self, rhs: Self) -> Self {
        Complex { re: self.re.add_spec(rhs.re), im: self.im.add_spec(rhs.im) }
    }

    /// Componentwise difference.
    pub open spec fn sub_spec(self, rhs: Self) -> Self {
        Complex { re: self.re.sub_spec(rhs.re), im: self.im.sub_spec(rhs.im) }
    }

    /// The sum of `self` and the real number `r`.
    pub open spec fn add_real_spec(self, r: T) -> Self {
        Complex { re: self.re.add_spec(r), im: self.im }
    }

    /// The product `(a + bi)(c + di) = (ac - bd) + (ad + bc)i`.
    pub open spec fn mul_spec(self, rhs: Self) -> Self {
        Complex {
            re: self.re.mul_spec(rhs.re).sub_spec(self.im.mul_spec(rhs.im)),
            im: self.re.mul_spec(rhs.im).add_spec(self.im.mul_spec(rhs.re)),
        }
    }

    /// The product of the real number `k` and `self`.
    pub open spec fn times_real_spec(self, k: T) -> Self {
        Complex { re: k.mul_spec(self.re), im: k.mul_spec(self.im) }
    }

    /// The squared modulus `re*re + im*im`.
    pub open spec fn norm_sqr_spec(self) -> T {
        self.re.mul_spec(self.re).add_spec(self.im.mul_spec(self.im))
    }

    /// The complex number `re + im*i`.
    pub fn new(re: T, im: T) -> (z: Self)
        ensures
            z == (Complex { re, im }),
    {
        Complex { re, im }
    }

    /// The complex number that stands for `n`.
    pub fn from_u32(n: u32) -> (z: Self)
        ensures
            z == Self::from_u32_spec(n),
    {
        Complex { re: T::from_u32(n), im: T::from_u32(0) }
    }

    /// Computes `self + rhs`.
    pub fn add(&self, rhs: &Self) -> (z: Self)
        ensures
            z == self.add_spec(*rhs),
    {
        Complex { re: self.re.add(&rhs.re), im: self.im.add(&rhs.im) }
    }

    /// Computes `self - rhs`.
    pub fn sub(&self, rhs: &Self) -> (z: Self)
        ensures
            z == self.sub_spec(*rhs),
    {
        Complex { re: self.re.sub(&rhs.re), im: self.im.sub(&rhs.im) }
    }

    /// Computes `self + r` for a real `r`.
    pub fn add_real(&self, r: &T) -> (z: Self)
        ensures
            z == self.add_real_spec(*r),
    {
        Complex { re: self.re.add(r), im: self.im.dup() }
    }

    /// Computes `self * rhs`.
    pub fn mul(&self, rhs: &Self) -> (z: Self)
        ensures
            z == self.mul_spec(*rhs),
    {
        let re = self.re.mul(&rhs.re).sub(&self.im.mul(&rhs.im));
        let im = self.re.mul(&rhs.im).add(&self.im.mul(&rhs.re));
        Complex { re, im }
    }

    /// Computes `k * self` for a real `k`.
    pub fn times_real(&self, k: &T) -> (z: Self)
        ensures
            z == self.times_real_spec(*k),
    {
        Complex { re: k.mul(&self.re), im: k.mul(&self.im) }
    }

    /// Computes the squared modulus.
    pub fn norm_sqr(&self) -> (n: T)
        ensures
            n == self.norm_sqr_spec(),
    {
        self.re.mul(&self.re).add(&self.im.mul(&self.im))
    }

    /// A second copy of the same number.
    pub fn dup(&self) -> (z: Self)
        ensures
            z == *self,
    {
        Complex { re: self.re.dup(), im: self.im.dup() }
    }
}

/// The coefficients `(A, B, C)` of the series `A*d + B*d^2 + C*d^3` that
/// approximates the distance of a pixel's orbit from the reference orbit.
pub struct Series<T> {
    pub a: Complex<T>,
    pub b: Complex<T>,
    pub c: Complex<T>,
}

impl<T: Scalar> Series<T> {
    /// The coefficients at the start of an orbit: `(1, 0, 0)`.
    pub open spec fn initial() -> Self {
        Series {
            a: Complex::from_u32_spec(1),
            b: Complex::from_u32_spec(0),
            c: Complex::from_u32_spec(0),
        }
    }

    /// The coefficients one step on, where the reference orbit stands at `x`:
    /// `A' = 2*A*x + 1`, `B' = 2*B*x + A*A`, `C' = 2*C*x + A*B`.
    pub open spec fn advance(self, x: Complex<T>) -> Self {
        let two = T::from_u32_spec(2);
        let one = T::from_u32_spec(1);
        Series {
            a: self.a.times_real_spec(two).mul_spec(x).add_real_spec(one),
            b: self.b.times_real_spec(two).mul_spec(x).add_spec(self.a.mul_spec(self.a)),
            c: self.c.times_real_spec(two).mul_spec(x).add_spec(self.a.mul_spec(self.b)),
        }
    }

    /// The series at the offset `d`: `A*d + B*d*d + C*d*d*d`.
    pub open spec fn value(self, d: Complex<T>) -> Complex<T> {
        self.a.mul_spec(d).add_spec(self.b.mul_spec(d).mul_spec(d)).add_spec(
            self.c.mul_spec(d).mul_spec(d).mul_spec(d),
        )
    }

    /// The view of three coefficients held in an array.
    pub open spec fn of(input: [Complex<T>; 3]) -> Self {
        Series { a: input[0], b: input[1], c: input[2] }
    }
}

/// The series `input` evaluated at the offset `d`.
pub fn series_value<T: Scalar>(d: &Complex<T>, input: &[Complex<T>; 3]) -> (v: Complex<T>)
    ensures
        v == Series::of(*input).value(*d),
{
    let first = input[0].mul(d);
    let second = input[1].mul(d).mul(d);
    let third = input[2].mul(d).mul(d).mul(d);
    first.add(&second).add(&third)
}

/// One step of the perturbation recurrence: advances the coefficients past
/// the reference iterate `x_n` and evaluates the new series at the offset `d`.
pub fn delta<T: Scalar>(d: Complex<T>, x_n: Complex<T>, input: [Complex<T>; 3]) -> (r: (
    Complex<T>,
    [Complex<T>; 3],
))
    ensures
        Series::of(r.1) == Series::of(input).advance(x_n),
        r.0 == Series::of(input).advance(x_n).value(d),
{
    let two = T::from_u32(2);
    let one = T::from_u32(1);

    let a_n1 = input[0].times_real(&two).mul(&x_n).add_real(&one);
    let b_n1 = input[1].times_real(&two).mul(&x_n).add(&input[0].mul(&input[0]));
    let c_n1 = input[2].times_real(&two).mul(&x_n).add(&input[0].mul(&input[1]));
    let next = [a_n1, b_n1, c_n1];
    let x_n1 = series_value(&d, &next);

    (x_n1, next)
}

/// Whether the correction `dl` has outgrown the reference iterate `z`: its
/// squared modulus is above that of `z`. A correction of zero never has.
pub open spec fn glitched<T: Scalar>(dl: Complex<T>, z: Complex<T>) -> bool {
    z.norm_sqr_spec().lt_spec(dl.norm_sqr_spec())
}

/// The reference iterate at index `i`, in the companion type.
pub open spec fn narrowed<T: Approx>(reference: Seq<(T, T)>, i: int) -> Complex<T::Low> {
    Complex { re: reference[i].0.narrow_spec(), im: reference[i].1.narrow_spec() }
}

/// The orbit estimates `reference[n] + delta_n` from index `i` on, where
/// `delta_n` is the series `k` at the offset `d`.
///
/// The sequence ends with the first estimate outside the escape radius, or
/// with the reference orbit.
pub open spec fn delta_orbit_from<T: Approx>(
    reference: Seq<(T, T)>,
    d: Complex<T::Low>,
    k: Series<T::Low>,
    i: nat,
) -> Seq<(T::Low, T::Low)>
    decreases reference.len() - i,
{
    if i >= reference.len() {
        Seq::empty()
    } else {
        let z = narrowed(reference, i as int);
        let x = z.add_spec(k.value(d));
        if !bounded(x.re, x.im) {
            seq![(x.re, x.im)]
        } else {
            seq![(x.re, x.im)] + delta_orbit_from(reference, d, k.advance(z), i + 1)
        }
    }
}

/// The orbit estimates of the pixel at offset `(d_x, d_y)` from the
/// reference pixel.
pub open spec fn delta_orbit<T: Approx>(reference: Seq<(T, T)>, d_x: T::Low, d_y: T::Low) -> Seq<
    (T::Low, T::Low),
> {
    delta_orbit_from(reference, Complex { re: d_x, im: d_y }, Series::initial(), 0)
}

/// The shape of the estimates: there is one for every reference iterate up to
/// the first estimate outside the escape radius, so at least one where the
/// reference is not empty, never more than reference iterates, and fewer only
/// where the last estimate has escaped. All estimates but the last lie inside
/// the escape radius.
pub proof fn lemma_delta_orbit<T: Approx>(
    reference: Seq<(T, T)>,
    d: Complex<T::Low>,
    k: Series<T::Low>,
    i: nat,
)
    ensures
        i <= reference.len() ==> delta_orbit_from(reference, d, k, i).len() + i <= reference.len(),
        i < reference.len() ==> delta_orbit_from(reference, d, k, i).len() >= 1,
        i < reference.len() && delta_orbit_from(reference, d, k, i).len() + i < reference.len()
            ==> !bounded(
            delta_orbit_from(reference, d, k, i).last().0,
            delta_orbit_from(reference, d, k, i).last().1,
        ),
        forall|j: int|
            0 <= j < delta_orbit_from(reference, d, k, i).len() - 1 ==> bounded(
                (#[trigger] delta_orbit_from(reference, d, k, i)[j]).0,
                delta_orbit_from(reference, d, k, i)[j].1,
            ),
    decreases reference.len() - i,
{
    if i < reference.len() {
        let z = narrowed(reference, i as int);
        let x = z.add_spec(k.value(d));
        let whole = delta_orbit_from(reference, d, k, i);
        if bounded(x.re, x.im) {
            lemma_delta_orbit(reference, d, k.advance(z), i + 1);
            let rest = delta_orbit_from(reference, d, k.advance(z), i + 1);
            assert(whole == seq![(x.re, x.im)] + rest);
            assert forall|j: int| 0 <= j < whole.len() - 1 implies bounded(
                (#[trigger] whole[j]).0,
                whole[j].1,
            ) by {
                if j > 0 {
                    assert(whole[j] == rest[j - 1]);
                }
            }
            if rest.len() > 0 {
                assert(whole.last() == rest.last());
            }
        } else {
            assert(whole == seq![(x.re, x.im)]);
            assert(whole.last() == (x.re, x.im));
        }
    }
}

/// Follows the reference orbit with the perturbation series and returns the
/// orbit estimates of the pixel at offset `(d_x, d_y)`: one for every
/// reference iterate, up to the first estimate outside the escape radius.
pub fn iterate_delta<T: Approx>(reference: &Vec<(T, T)>, d_x: T::Low, d_y: T::Low) -> (v: Vec<
    (T::Low, T::Low),
>)
    ensures
        v@ == delta_orbit(reference@, d_x, d_y),
        v@.len() <= reference@.len(),
        reference@.len() > 0 ==> v@.len() >= 1,
        v@.len() < reference@.len() ==> !bounded(v@.last().0, v@.last().1),
        forall|j: int| 0 <= j < v@.len() - 1 ==> bounded((#[trigger] v@[j]).0, v@[j].1),
{
    let a0 = Complex::<T::Low>::from_u32(1);
    let b0 = Complex::<T::Low>::from_u32(0);
    let c0 = Complex::<T::Low>::from_u32(0);
    let mut input = [a0, b0, c0];
    let d = Complex::new(d_x, d_y);
    let mut delta_n = series_value(&d, &input);
    let mut v: Vec<(T::Low, T::Low)> = Vec::new();
    let mut i: usize = 0;
    let ghost whole = delta_orbit(reference@, d_x, d_y);
    proof {
        assert(Series::of(input) == Series::<T::Low>::initial());
        lemma_delta_orbit(reference@, d, Series::initial(), 0);
    }

    while i < reference.len()
        invariant_except_break
            v@.len() == i,
            delta_n == Series::of(input).value(d),
            v@ + delta_orbit_from(reference@, d, Series::of(input), i as nat) == whole,
        invariant
            i <= reference.len(),
        ensures
            v@ =~= whole,
        decreases reference.len() - i,
    {
        let ghost before = v@;
        let ghost k = Series::of(input);
        let x_n = Complex::new(reference[i].0.narrow(), reference[i].1.narrow());
        assert(x_n == narrowed(reference@, i as int));
        let x = x_n.add(&delta_n);
        let escaped = !is_bounded(&x.re, &x.im);
        v.push((x.re, x.im));
        if escaped {
            assert(v@ == before + seq![(x.re, x.im)]);
            break;
        }
        let (delta_n1, input_new) = delta(d.dup(), x_n, input);
        delta_n = delta_n1;
        input = input_new;
        i = i + 1;
        proof {
            assert(v@ + delta_orbit_from(reference@, d, k.advance(x_n), i as nat) == before + (
            seq![(x.re, x.im)] + delta_orbit_from(reference@, d, k.advance(x_n), i as nat)));
        }
    }
    v
}

/// The correction that estimate `j` adds to its reference iterate: the
/// estimate less the iterate.
pub open spec fn correction<T: Approx>(
    reference: Seq<(T, T)>,
    v: Seq<(T::Low, T::Low)>,
    j: int,
) -> Complex<T::Low> {
    (Complex { re: v[j].0, im: v[j].1 }).sub_spec(narrowed(reference, j))
}

/// The index, from `i` on, of the first estimate whose correction has
/// outgrown its reference iterate, or the number of estimates where there is
/// none.
pub open spec fn sound_from<T: Approx>(
    reference: Seq<(T, T)>,
    v: Seq<(T::Low, T::Low)>,
    i: nat,
) -> nat
    decreases v.len() - i,
{
    if i >= v.len() {
        v.len()
    } else if glitched(correction(reference, v, i as int), narrowed(reference, i as int)) {
        i
    } else {
        sound_from(reference, v, i + 1)
    }
}

/// The number of leading estimates that are free of glitches.
pub open spec fn sound_len<T: Approx>(reference: Seq<(T, T)>, v: Seq<(T::Low, T::Low)>) -> nat {
    sound_from(reference, v, 0)
}

/// The glitch-free estimates are a prefix of all estimates: none of them has
/// glitched, and the one that follows them, if any, has.
pub proof fn lemma_sound_from<T: Approx>(
    reference: Seq<(T, T)>,
    v: Seq<(T::Low, T::Low)>,
    i: nat,
)
    requires
        i <= v.len(),
    ensures
        i <= sound_from(reference, v, i) <= v.len(),
        forall|j: int|
            i <= j < sound_from(reference, v, i) ==> !glitched(
                #[trigger] correction(reference, v, j),
                narrowed(reference, j),
            ),
        sound_from(reference, v, i) < v.len() ==> glitched(
            correction(reference, v, sound_from(reference, v, i) as int),
            narrowed(reference, sound_from(reference, v, i) as int),
        ),
    decreases v.len() - i,
{
    if i < v.len() && !glitched(correction(reference, v, i as int), narrowed(reference, i as int)) {
        lemma_sound_from(reference, v, i + 1);
    }
}

/// Counts the leading estimates that are free of glitches.
pub fn first_glitch<T: Approx>(reference: &Vec<(T, T)>, v: &Vec<(T::Low, T::Low)>) -> (g: usize)
    requires
        v@.len() <= reference@.len(),
    ensures
        g == sound_len(reference@, v@),
        g <= v@.len(),
{
    let mut g: usize = 0;
    proof {
        lemma_sound_from(reference@, v@, 0);
    }
    while g < v.len()
        invariant_except_break
            sound_from(reference@, v@, g as nat) == sound_len(reference@, v@),
        invariant
            g <= v@.len(),
            v@.len() <= reference@.len(),
        ensures
            g == sound_len(reference@, v@),
        decreases v@.len() - g,
    {
        let z = Complex::new(reference[g].0.narrow(), reference[g].1.narrow());
        let x = Complex::new(v[g].0.dup(), v[g].1.dup());
        assert(z == narrowed(reference@, g as int));
        assert(x.sub_spec(z) == correction(reference@, v@, g as int));
        if z.norm_sqr().lt(&x.sub(&z).norm_sqr()) {
            break;
        }
        g += 1;
    }
    g
}

} // verus!
