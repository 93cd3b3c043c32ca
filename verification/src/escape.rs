//! The escape-time iteration `z <- z*z + c`.
use vstd::prelude::*;
use crate::scalar::Scalar;

verus! {

/// Whether the point `(x, y)` lies strictly inside the escape radius 2,
/// tested as `x*x + y*y < 4`.
pub open spec fn bounded<T: Scalar>(x: T, y: T) -> bool {
    x.mul_spec(x).add_spec(y.mul_spec(y)).lt_spec(T::from_u32_spec(4))
}

/// Real part of `z*z + c` for `z = (x, y)` and `c = (x0, _)`.
pub open spec fn step_x<T: Scalar>(x: T, y: T, x0: T) -> T {
    x.mul_spec(x).sub_spec(y.mul_spec(y)).add_spec(x0)
}

/// Imaginary part of `z*z + c` for `z = (x, y)` and `c = (_, y0)`.
pub open spec fn step_y<T: Scalar>(x: T, y: T, y0: T) -> T {
    T::from_u32_spec(2).mul_spec(x).mul_spec(y).add_spec(y0)
}

/// The iterates that follow `(x, y)` under `z <- z*z + (x0, y0)`, at most
/// `budget` of them.
///
/// The sequence ends with the first iterate outside the escape radius. When an
/// iterate compares equal to its predecessor the orbit has reached a fixed
/// point: the remaining budget is then filled with that predecessor.
pub open spec fn orbit_from<T: Scalar>(x0: T, y0: T, x: T, y: T, budget: nat) -> Seq<(T, T)>
    decreases budget,
{
    if budget == 0 || !bounded(x, y) {
        Seq::empty()
    } else {
        let xn = step_x(x, y, x0);
        let yn = step_y(x, y, y0);
        if x.same_spec(xn) && y.same_spec(yn) {
            seq![(xn, yn)] + Seq::new((budget - 1) as nat, |i: int| (x, y))
        } else {
            seq![(xn, yn)] + orbit_from(x0, y0, xn, yn, (budget - 1) as nat)
        }
    }
}

/// The orbit of the origin under `z <- z*z + (x0, y0)`.
pub open spec fn orbit<T: Scalar>(x0: T, y0: T, budget: nat) -> Seq<(T, T)> {
    orbit_from(x0, y0, T::from_u32_spec(0), T::from_u32_spec(0), budget)
}

/// The number of iterations after which `(x0, y0)` leaves the escape radius,
/// or `None` where the whole budget is used up.
pub open spec fn escape_time<T: Scalar>(x0: T, y0: T, max_iterations: u32) -> Option<u32> {
    let n = orbit(x0, y0, max_iterations as nat).len();
    if n != max_iterations {
        Some(n as u32)
    } else {
        None
    }
}

/// An orbit never holds more iterates than its budget.
pub proof fn lemma_orbit_len<T: Scalar>(x0: T, y0: T, x: T, y: T, budget: nat)
    ensures
        orbit_from(x0, y0, x, y, budget).len() <= budget,
    decreases budget,
{
    if budget == 0 || !bounded(x, y) {
    } else {
        let xn = step_x(x, y, x0);
        let yn = step_y(x, y, y0);
        if x.same_spec(xn) && y.same_spec(yn) {
        } else {
            lemma_orbit_len(x0, y0, xn, yn, (budget - 1) as nat);
        }
    }
}

/// Whether the first `k` steps from `(x, y)` each lead to an iterate that
/// differs from its predecessor, so that no fixed point is met on the way.
pub open spec fn moves<T: Scalar>(x0: T, y0: T, x: T, y: T, k: nat) -> bool
    decreases k,
{
    k == 0 || {
        let xn = step_x(x, y, x0);
        let yn = step_y(x, y, y0);
        !(x.same_spec(xn) && y.same_spec(yn)) && moves(x0, y0, xn, yn, (k - 1) as nat)
    }
}

/// Steps that all move still do so when fewer of them are taken.
pub proof fn lemma_moves_shorter<T: Scalar>(x0: T, y0: T, x: T, y: T, k: nat, j: nat)
    requires
        moves(x0, y0, x, y, k),
        j <= k,
    ensures
        moves(x0, y0, x, y, j),
    decreases j,
{
    if j > 0 {
        lemma_moves_shorter(
            x0,
            y0,
            step_x(x, y, x0),
            step_y(x, y, y0),
            (k - 1) as nat,
            (j - 1) as nat,
        );
    }
}

/// The shape of an orbit before it meets a fixed point: the first iterate is
/// `z*z + c` of the starting point, each later one is `z*z + c` of the one
/// before it, and every iterate that has a successor lies inside the escape
/// radius.
pub proof fn lemma_orbit_prefix<T: Scalar>(x0: T, y0: T, x: T, y: T, budget: nat, k: nat)
    requires
        1 <= k <= orbit_from(x0, y0, x, y, budget).len(),
        moves(x0, y0, x, y, k),
    ensures
        bounded(x, y),
        orbit_from(x0, y0, x, y, budget)[0] == (step_x(x, y, x0), step_y(x, y, y0)),
        forall|j: int|
            0 <= j < k - 1 ==> {
                let z = #[trigger] orbit_from(x0, y0, x, y, budget)[j];
                &&& bounded(z.0, z.1)
                &&& orbit_from(x0, y0, x, y, budget)[j + 1] == (
                    step_x(z.0, z.1, x0),
                    step_y(z.0, z.1, y0),
                )
            },
    decreases k,
{
    let o = orbit_from(x0, y0, x, y, budget);
    let xn = step_x(x, y, x0);
    let yn = step_y(x, y, y0);
    let rest = orbit_from(x0, y0, xn, yn, (budget - 1) as nat);
    assert(budget > 0 && bounded(x, y));
    assert(o == seq![(xn, yn)] + rest);
    assert(o[0] == (xn, yn));
    if k > 1 {
        lemma_orbit_prefix(x0, y0, xn, yn, (budget - 1) as nat, (k - 1) as nat);
        assert forall|j: int| 0 <= j < k - 1 implies {
            let z = #[trigger] o[j];
            &&& bounded(z.0, z.1)
            &&& o[j + 1] == (step_x(z.0, z.1, x0), step_y(z.0, z.1, y0))
        } by {
            assert(o[j + 1] == rest[j]);
            if j > 0 {
                assert(o[j] == rest[j - 1]);
            }
        }
    }
}

/// An orbit can be cut after its first `k` iterates and taken up again from
/// the last of them: where that iterate lies inside the escape radius, the
/// rest of the orbit is the orbit from there on the rest of the budget; where
/// it lies outside, the orbit ends with it.
pub proof fn lemma_orbit_cut<T: Scalar>(x0: T, y0: T, x: T, y: T, budget: nat, k: nat)
    requires
        1 <= k <= orbit_from(x0, y0, x, y, budget).len(),
        moves(x0, y0, x, y, k),
    ensures
        k <= budget,
        ({
            let o = orbit_from(x0, y0, x, y, budget);
            let last = o[k - 1];
            o.len() == k + orbit_from(x0, y0, last.0, last.1, (budget - k) as nat).len()
        }),
        !bounded(
            orbit_from(x0, y0, x, y, budget)[k - 1].0,
            orbit_from(x0, y0, x, y, budget)[k - 1].1,
        ) ==> orbit_from(x0, y0, x, y, budget).len() == k,
    decreases k,
{
    let o = orbit_from(x0, y0, x, y, budget);
    let xn = step_x(x, y, x0);
    let yn = step_y(x, y, y0);
    let rest = orbit_from(x0, y0, xn, yn, (budget - 1) as nat);
    assert(budget > 0 && bounded(x, y));
    assert(o == seq![(xn, yn)] + rest);
    lemma_orbit_len(x0, y0, xn, yn, (budget - 1) as nat);
    if k == 1 {
        assert(o[0] == (xn, yn));
    } else {
        lemma_orbit_cut(x0, y0, xn, yn, (budget - 1) as nat, (k - 1) as nat);
        assert(o[k - 1] == rest[k - 2]);
    }
}

/// Whether the number type computes with zero as the integers do: products,
/// sums and differences of zeros are zero, twice zero is zero, zero compares
/// equal to itself, and zero is below four.
pub open spec fn zero_is_exact<T: Scalar>() -> bool {
    let zero = T::from_u32_spec(0);
    &&& zero.mul_spec(zero) == zero
    &&& zero.add_spec(zero) == zero
    &&& zero.sub_spec(zero) == zero
    &&& T::from_u32_spec(2).mul_spec(zero) == zero
    &&& zero.same_spec(zero)
    &&& zero.lt_spec(T::from_u32_spec(4))
}

/// Whether the number type computes with two as the integers do: zero plus
/// two is two, two times two is four, four plus zero is four, four is not
/// below four, and zero does not compare equal to two.
pub open spec fn two_is_exact<T: Scalar>() -> bool {
    let zero = T::from_u32_spec(0);
    let two = T::from_u32_spec(2);
    let four = T::from_u32_spec(4);
    &&& zero.add_spec(two) == two
    &&& two.mul_spec(two) == four
    &&& four.add_spec(zero) == four
    &&& !four.lt_spec(four)
    &&& !zero.same_spec(two)
}

/// The origin lies in the set: in every number type that computes with zero
/// exactly, and whatever the budget, the orbit of the origin uses all of the
/// budget and its escape time is `None`.
pub proof fn lemma_origin_in_set<T: Scalar>(max_iterations: u32)
    requires
        zero_is_exact::<T>(),
    ensures
        orbit(T::from_u32_spec(0), T::from_u32_spec(0), max_iterations as nat).len()
            == max_iterations,
        escape_time(T::from_u32_spec(0), T::from_u32_spec(0), max_iterations) == None::<u32>,
{
    let zero = T::from_u32_spec(0);
    assert(bounded(zero, zero));
    assert(step_x(zero, zero, zero) == zero);
    assert(step_y(zero, zero, zero) == zero);
}

/// The point 2 lies on the escape radius: in every number type that computes
/// with zero and two exactly, and with a budget of two or more, its escape
/// time is 1.
pub proof fn lemma_two_on_radius<T: Scalar>(max_iterations: u32)
    requires
        zero_is_exact::<T>(),
        two_is_exact::<T>(),
        max_iterations >= 2,
    ensures
        escape_time(T::from_u32_spec(2), T::from_u32_spec(0), max_iterations) == Some(1u32),
{
    let zero = T::from_u32_spec(0);
    let two = T::from_u32_spec(2);
    assert(bounded(zero, zero));
    assert(step_x(zero, zero, two) == two);
    assert(step_y(zero, zero, zero) == zero);
    assert(!bounded(two, zero));
    let rest = orbit_from(two, zero, two, zero, (max_iterations - 1) as nat);
    assert(rest == Seq::<(T, T)>::empty());
    assert(orbit(two, zero, max_iterations as nat) == seq![(two, zero)] + rest);
}

/// Tests `x*x + y*y < 4`.
pub fn is_bounded<T: Scalar>(x: &T, y: &T) -> (b: bool)
    ensures
        b == bounded(*x, *y),
{
    let xx = x.mul(x);
    let yy = y.mul(y);
    let four = T::from_u32(4);
    xx.add(&yy).lt(&four)
}

/// Iterates `z <- z*z + (x0, y0)` from `(x_start, y_start)` and returns the
/// iterates in order.
pub fn iterate_all_start<T: Scalar>(
    x0: T,
    y0: T,
    x_start: T,
    y_start: T,
    max_iterations: u32,
) -> (v: Vec<(T, T)>)
    ensures
        v@ == orbit_from(x0, y0, x_start, y_start, max_iterations as nat),
{
    let mut i: u32 = 0;
    let mut x = x_start;
    let mut y = y_start;
    let mut v: Vec<(T, T)> = Vec::new();
    let ghost whole = orbit_from(x0, y0, x_start, y_start, max_iterations as nat);

    while i < max_iterations && is_bounded(&x, &y)
        invariant
            i <= max_iterations,
            v@.len() == i,
            v@ + orbit_from(x0, y0, x, y, (max_iterations - i) as nat) == whole,
        decreases max_iterations - i,
    {
        let ghost before = v@;
        let ghost rest = (max_iterations - i - 1) as nat;
        let xtemp = x.mul(&x).sub(&y.mul(&y)).add(&x0);
        let two = T::from_u32(2);
        let ytemp = two.mul(&x).mul(&y).add(&y0);

        v.push((xtemp.dup(), ytemp.dup()));
        i += 1;

        if x.same(&xtemp) && y.same(&ytemp) {
            let ghost fill = Seq::new(rest, |k: int| (x, y));
            while i < max_iterations
                invariant
                    i <= max_iterations,
                    v@.len() == i,
                    v@.len() >= before.len() + 1,
                    rest == max_iterations - before.len() - 1,
                    v@ == before + seq![(xtemp, ytemp)] + fill.subrange(
                        0,
                        v@.len() - before.len() - 1,
                    ),
                    fill == Seq::new(rest, |k: int| (x, y)),
                decreases max_iterations - i,
            {
                v.push((x.dup(), y.dup()));
                i += 1;
            }
            proof {
                assert(fill.subrange(0, fill.len() as int) == fill);
                assert(v@ == before + (seq![(xtemp, ytemp)] + fill));
                assert(orbit_from(x0, y0, xtemp, ytemp, 0) == Seq::<(T, T)>::empty());
                assert(v@ + Seq::<(T, T)>::empty() == v@);
            }
        } else {
            proof {
                assert(v@ + orbit_from(x0, y0, xtemp, ytemp, rest) == before + (seq![(xtemp, ytemp)]
                    + orbit_from(x0, y0, xtemp, ytemp, rest)));
            }
        }

        x = xtemp;
        y = ytemp;
    }
    proof {
        assert(orbit_from(x0, y0, x, y, (max_iterations - i) as nat) == Seq::<(T, T)>::empty());
        assert(v@ + Seq::<(T, T)>::empty() == v@);
    }
    v
}

/// Iterates `z <- z*z + (x0, y0)` from the origin and returns the iterates in
/// order.
pub fn iterate_all<T: Scalar>(x0: T, y0: T, max_iterations: u32) -> (v: Vec<(T, T)>)
    ensures
        v@ == orbit(x0, y0, max_iterations as nat),
{
    let x = T::from_u32(0);
    let y = T::from_u32(0);
    iterate_all_start(x0, y0, x, y, max_iterations)
}

/// The escape time of the point `(x0, y0)`: `Some(n)` where the orbit leaves
/// the escape radius after `n < max_iterations` iterations, `None` where the
/// budget runs out first.
pub fn iterate<T: Scalar>(x0: T, y0: T, max_iterations: u32) -> (r: Option<u32>)
    ensures
        r == escape_time(x0, y0, max_iterations),
        r matches Some(n) ==> n < max_iterations,
{
    proof {
        lemma_orbit_len(x0, y0, T::from_u32_spec(0), T::from_u32_spec(0), max_iterations as nat);
    }
    let n = iterate_all(x0, y0, max_iterations).len();
    if n != max_iterations as usize {
        Some(n as u32)
    } else {
        None
    }
}

} // verus!
