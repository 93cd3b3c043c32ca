//! Evaluation of a whole frame: one iteration count per pixel.
use vstd::prelude::*;
use rayon::iter::IndexedParallelIterator;
use rayon::iter::IntoParallelIterator;
use rayon::iter::ParallelIterator;
use crate::scalar::Scalar;
use crate::scalar::Approx;
use crate::canvas::Viewport;
use crate::canvas::CanvasSize;
use crate::escape::bounded;
use crate::escape::is_bounded;
use crate::escape::escape_time;
use crate::escape::orbit;
use crate::escape::orbit_from;
use crate::escape::lemma_orbit_len;
use crate::escape::lemma_orbit_cut;
use crate::escape::lemma_moves_shorter;
use crate::escape::moves;
use crate::escape::iterate;
use crate::escape::iterate_all;
use crate::escape::iterate_all_start;
use crate::perturbation::Complex;
use crate::perturbation::Series;
use crate::perturbation::delta_orbit;
use crate::perturbation::sound_len;
use crate::perturbation::lemma_sound_from;
use crate::perturbation::first_glitch;
use crate::perturbation::lemma_delta_orbit;
use crate::perturbation::iterate_delta;

verus! {

/// The plane point shown at the pixel with row-major index `idx`.
pub open spec fn pixel_point<T: Scalar>(v: Viewport<T>, idx: nat) -> (T, T) {
    v.coordinates(v.idx_to_coord(idx).0 as u32, v.idx_to_coord(idx).1 as u32)
}

/// An escape time as a pixel result: the iteration count, or the whole budget
/// for a point that did not escape.
pub open spec fn count_of(t: Option<u32>, max_iterations: u32) -> u32 {
    match t {
        Some(n) => n,
        None => max_iterations,
    }
}

/// The result for pixel `idx` when its point is iterated in the viewport's
/// own number type.
pub open spec fn direct_count<T: Scalar>(v: Viewport<T>, idx: nat, max_iterations: u32) -> u32 {
    let p = pixel_point(v, idx);
    count_of(escape_time(p.0, p.1, max_iterations), max_iterations)
}

/// The result for pixel `idx` when its point is first narrowed to the
/// companion type and iterated there.
pub open spec fn narrowed_count<T: Approx>(v: Viewport<T>, idx: nat, max_iterations: u32) -> u32 {
    let p = pixel_point(v, idx);
    count_of(
        escape_time(p.0.narrow_spec(), p.1.narrow_spec(), max_iterations),
        max_iterations,
    )
}

/// The point from which the precise iteration takes over after the
/// estimates `v`: the last estimate, or the origin where there is none.
pub open spec fn rebase_seed<T: Approx>(v: Seq<(T::Low, T::Low)>) -> (T, T) {
    if v.len() == 0 {
        (T::from_u32_spec(0), T::from_u32_spec(0))
    } else {
        (T::widen_spec(v.last().0), T::widen_spec(v.last().1))
    }
}

/// Whether a reference orbit is of no use: it is empty, or its first iterate
/// has left the escape radius already.
pub open spec fn degenerate<T: Scalar>(reference: Seq<(T, T)>) -> bool {
    reference.len() == 0 || (reference.len() == 1 && !bounded(reference[0].0, reference[0].1))
}

/// The result for the point `c` by perturbation of the orbit `reference` of
/// the point `c_ref`.
///
/// With a degenerate reference the result is that of the precise iteration of
/// `c`. Otherwise, where the estimates are free of glitches and end with one
/// outside the escape radius, the result is their number. And where they
/// meet a glitch, or end inside the escape radius with the reference orbit,
/// the precise iteration goes on from the last glitch-free estimate for the
/// rest of the budget.
pub open spec fn perturbed_count<T: Approx>(
    reference: Seq<(T, T)>,
    c_ref: (T, T),
    c: (T, T),
    max_iterations: u32,
) -> nat {
    let v = delta_orbit(
        reference,
        c.0.sub_spec(c_ref.0).narrow_spec(),
        c.1.sub_spec(c_ref.1).narrow_spec(),
    );
    let g = sound_len(reference, v);
    if degenerate(reference) {
        orbit(c.0, c.1, max_iterations as nat).len()
    } else if g == v.len() && v.len() > 0 && !bounded(v.last().0, v.last().1) {
        v.len()
    } else {
        let seed = rebase_seed::<T>(v.subrange(0, g as int));
        g + orbit_from(c.0, c.1, seed.0, seed.1, (max_iterations - g) as nat).len()
    }
}

/// The result for pixel `idx` by perturbation of the orbit of pixel 0.
pub open spec fn delta_count<T: Approx>(v: Viewport<T>, idx: nat, max_iterations: u32) -> nat {
    let c_ref = pixel_point(v, 0);
    perturbed_count(
        orbit(c_ref.0, c_ref.1, max_iterations as nat),
        c_ref,
        pixel_point(v, idx),
        max_iterations,
    )
}

/// A perturbed result never exceeds the budget.
pub proof fn lemma_perturbed_count_bound<T: Approx>(
    reference: Seq<(T, T)>,
    c_ref: (T, T),
    c: (T, T),
    max_iterations: u32,
)
    requires
        reference.len() <= max_iterations,
    ensures
        perturbed_count(reference, c_ref, c, max_iterations) <= max_iterations,
{
    let d_x = c.0.sub_spec(c_ref.0).narrow_spec();
    let d_y = c.1.sub_spec(c_ref.1).narrow_spec();
    let v = delta_orbit(reference, d_x, d_y);
    lemma_delta_orbit(reference, Complex { re: d_x, im: d_y }, Series::initial(), 0);
    lemma_sound_from(reference, v, 0);
    let g = sound_len(reference, v);
    let seed = rebase_seed::<T>(v.subrange(0, g as int));
    lemma_orbit_len(c.0, c.1, seed.0, seed.1, (max_iterations - g) as nat);
    lemma_orbit_len(c.0, c.1, T::from_u32_spec(0), T::from_u32_spec(0), max_iterations as nat);
}

/// A pixel result in the viewport's own number type is the length of the
/// pixel's orbit.
pub proof fn lemma_direct_count_is_orbit_len<T: Scalar>(v: Viewport<T>, idx: nat, max_iterations: u32)
    ensures
        direct_count(v, idx, max_iterations) == orbit(
            pixel_point(v, idx).0,
            pixel_point(v, idx).1,
            max_iterations as nat,
        ).len(),
{
    let p = pixel_point(v, idx);
    lemma_orbit_len(p.0, p.1, T::from_u32_spec(0), T::from_u32_spec(0), max_iterations as nat);
}

/// Where the orbit of pixel 0 is degenerate, perturbation gives every pixel
/// the result of its precise iteration.
pub proof fn lemma_degenerate_reference<T: Approx>(v: Viewport<T>, idx: nat, max_iterations: u32)
    requires
        degenerate(orbit(pixel_point(v, 0).0, pixel_point(v, 0).1, max_iterations as nat)),
    ensures
        delta_count(v, idx, max_iterations) == direct_count(v, idx, max_iterations),
{
    lemma_direct_count_is_orbit_len(v, idx, max_iterations);
}

/// Whether the estimates `v` are exact for the orbit `o`: each of them widens
/// to the iterate at its place, and lies inside the escape radius exactly
/// when that iterate does.
pub open spec fn exact_for<T: Approx>(v: Seq<(T::Low, T::Low)>, o: Seq<(T, T)>) -> bool {
    &&& v.len() <= o.len()
    &&& forall|j: int|
        0 <= j < v.len() ==> {
            &&& T::widen_spec((#[trigger] v[j]).0) == o[j].0
            &&& T::widen_spec(v[j].1) == o[j].1
            &&& bounded(v[j].0, v[j].1) == bounded(o[j].0, o[j].1)
        }
}

/// Perturbation agrees with the direct iteration wherever its estimates are
/// exact: if the estimates for the point `c` are exact for the orbit of `c`,
/// and that orbit meets no fixed point among them, the perturbed result is
/// the length of the orbit.
pub proof fn lemma_exact_estimates_give_direct_count<T: Approx>(
    reference: Seq<(T, T)>,
    c_ref: (T, T),
    c: (T, T),
    max_iterations: u32,
)
    requires
        exact_for::<T>(
            delta_orbit(
                reference,
                c.0.sub_spec(c_ref.0).narrow_spec(),
                c.1.sub_spec(c_ref.1).narrow_spec(),
            ),
            orbit(c.0, c.1, max_iterations as nat),
        ),
        moves(
            c.0,
            c.1,
            T::from_u32_spec(0),
            T::from_u32_spec(0),
            delta_orbit(
                reference,
                c.0.sub_spec(c_ref.0).narrow_spec(),
                c.1.sub_spec(c_ref.1).narrow_spec(),
            ).len(),
        ),
    ensures
        perturbed_count(reference, c_ref, c, max_iterations) == orbit(
            c.0,
            c.1,
            max_iterations as nat,
        ).len(),
{
    let v = delta_orbit(
        reference,
        c.0.sub_spec(c_ref.0).narrow_spec(),
        c.1.sub_spec(c_ref.1).narrow_spec(),
    );
    let g = sound_len(reference, v);
    lemma_sound_from(reference, v, 0);
    if g > 0 {
        let zero = T::from_u32_spec(0);
        lemma_moves_shorter(c.0, c.1, zero, zero, v.len(), g);
        lemma_orbit_cut(c.0, c.1, zero, zero, max_iterations as nat, g);
        let kept = v.subrange(0, g as int);
        assert(kept.last() == v[g - 1]);
        if g == v.len() {
            assert(v.last() == v[g - 1]);
        }
    }
}

/// Whether the estimates for pixel `idx` are exact for the orbit of its point,
/// and that orbit meets no fixed point among them.
pub open spec fn estimates_exact<T: Approx>(v: Viewport<T>, idx: nat, max_iterations: u32) -> bool {
    let c_ref = pixel_point(v, 0);
    let c = pixel_point(v, idx);
    let estimates = delta_orbit(
        orbit(c_ref.0, c_ref.1, max_iterations as nat),
        c.0.sub_spec(c_ref.0).narrow_spec(),
        c.1.sub_spec(c_ref.1).narrow_spec(),
    );
    &&& exact_for::<T>(estimates, orbit(c.0, c.1, max_iterations as nat))
    &&& moves(c.0, c.1, T::from_u32_spec(0), T::from_u32_spec(0), estimates.len())
}

/// A frame by perturbation is the frame of the direct iteration wherever the
/// estimates are exact for every pixel.
pub proof fn lemma_exact_frame<T: Approx>(v: Viewport<T>, max_iterations: u32)
    requires
        forall|idx: nat| idx < v.pixel_count() ==> estimates_exact(v, idx, max_iterations),
    ensures
        forall|idx: nat|
            idx < v.pixel_count() ==> #[trigger] delta_count(v, idx, max_iterations)
                == direct_count(v, idx, max_iterations),
{
    assert forall|idx: nat| idx < v.pixel_count() implies #[trigger] delta_count(
        v,
        idx,
        max_iterations,
    ) == direct_count(v, idx, max_iterations) by {
        let c_ref = pixel_point(v, 0);
        assert(estimates_exact(v, idx, max_iterations));
        lemma_exact_estimates_give_direct_count(
            orbit(c_ref.0, c_ref.1, max_iterations as nat),
            c_ref,
            pixel_point(v, idx),
            max_iterations,
        );
        lemma_direct_count_is_orbit_len(v, idx, max_iterations);
    }
}

/// The plane point shown at the pixel with row-major index `idx`.
pub fn point_of_pixel<T: Scalar>(canvas: &CanvasSize<T>, idx: u32) -> (p: [T; 2])
    requires
        idx < canvas@.pixel_count(),
    ensures
        (p[0], p[1]) == pixel_point(canvas@, idx as nat),
{
    canvas.coordinates(canvas.idx_to_coord(idx as usize))
}

/// Iterates the point of pixel `idx` in the viewport's own number type.
pub fn pixel_direct<T: Scalar>(canvas: &CanvasSize<T>, idx: u32, max_iterations: u32) -> (n: u32)
    requires
        idx < canvas@.pixel_count(),
    ensures
        n == direct_count(canvas@, idx as nat, max_iterations),
        n <= max_iterations,
{
    let c = point_of_pixel(canvas, idx);
    match iterate(c[0].dup(), c[1].dup(), max_iterations) {
        Some(n) => n,
        None => max_iterations,
    }
}

/// Iterates the point of pixel `idx` in the companion number type.
pub fn pixel_narrowed<T: Approx>(canvas: &CanvasSize<T>, idx: u32, max_iterations: u32) -> (n: u32)
    requires
        idx < canvas@.pixel_count(),
    ensures
        n == narrowed_count(canvas@, idx as nat, max_iterations),
        n <= max_iterations,
{
    let c = point_of_pixel(canvas, idx);
    match iterate(c[0].narrow(), c[1].narrow(), max_iterations) {
        Some(n) => n,
        None => max_iterations,
    }
}

/// Computes the result for the point `c` by perturbation of the orbit
/// `reference` of the point `reference_coord`, and falls back to the precise
/// iteration where the estimates give out.
pub fn pixel_delta<T: Approx>(
    reference: &Vec<(T, T)>,
    reference_coord: &[T; 2],
    c: &[T; 2],
    max_iterations: u32,
) -> (n: u32)
    requires
        reference@.len() <= max_iterations,
    ensures
        n == perturbed_count(
            reference@,
            (reference_coord[0], reference_coord[1]),
            (c[0], c[1]),
            max_iterations,
        ),
        n <= max_iterations,
{
    proof {
        lemma_perturbed_count_bound(
            reference@,
            (reference_coord[0], reference_coord[1]),
            (c[0], c[1]),
            max_iterations,
        );
    }
    let useless = reference.len() == 0 || (reference.len() == 1 && !is_bounded(
        &reference[0].0,
        &reference[0].1,
    ));
    if useless {
        proof {
            lemma_orbit_len(c[0], c[1], T::from_u32_spec(0), T::from_u32_spec(0), max_iterations as nat);
        }
        return iterate_all(c[0].dup(), c[1].dup(), max_iterations).len() as u32;
    }
    let d_x = c[0].sub(&reference_coord[0]).narrow();
    let d_y = c[1].sub(&reference_coord[1]).narrow();

    let v = iterate_delta(reference, d_x, d_y);
    let sound = first_glitch(reference, &v);
    if sound == v.len() && sound > 0 && !is_bounded(&v[sound - 1].0, &v[sound - 1].1) {
        return sound as u32;
    }
    let ghost kept = v@.subrange(0, sound as int);
    let remaining = max_iterations - sound as u32;
    let rest = if sound == 0 {
        iterate_all_start(c[0].dup(), c[1].dup(), T::from_u32(0), T::from_u32(0), remaining)
    } else {
        assert(kept.last() == v@[sound - 1]);
        let last_x = T::widen(&v[sound - 1].0);
        let last_y = T::widen(&v[sound - 1].1);
        iterate_all_start(c[0].dup(), c[1].dup(), last_x, last_y, remaining)
    };
    proof {
        let seed = rebase_seed::<T>(kept);
        lemma_orbit_len(c[0], c[1], seed.0, seed.1, remaining as nat);
    }
    (sound + rest.len()) as u32
}

/// Applies `f` to every index below `n`, in parallel, and collects the
/// results in index order.
///
/// Trusted: the body is `rayon`'s `into_par_iter` on the range `0..n`,
/// followed by `map` and `collect_into_vec`. The contract claims what
/// `rayon` documents of an indexed parallel iterator: `f` is called on items
/// of the range only, the vector holds one result for each of them, and the
/// result for index `i` stands at position `i` whatever the order in which
/// the calls ran.
#[verifier::external_body]
fn par_map_range<F: Fn(u32) -> u32 + Sync + Send>(n: u32, f: F) -> (v: Vec<u32>)
    requires
        forall|i: u32| i < n ==> call_requires(f, (i,)),
    ensures
        v@.len() == n,
        forall|i: int| 0 <= i < n ==> call_ensures(f, (i as u32,), #[trigger] v@[i]),
{
    let mut v: Vec<u32> = Vec::new();
    (0..n).into_par_iter().map(f).collect_into_vec(&mut v);
    v
}

/// Evaluates every pixel of the viewport in its own number type.
///
/// The result holds one iteration count per pixel, in row-major order; a count
/// equal to `max_iterations` marks a point that did not escape.
pub fn calculate_all_mpfr<T: Scalar + Sync>(canvas_size: CanvasSize<T>, max_iterations: u32) -> (v:
    Vec<u32>)
    ensures
        v@ == Seq::new(
            canvas_size@.pixel_count(),
            |i: int| direct_count(canvas_size@, i as nat, max_iterations),
        ),
        forall|i: int| 0 <= i < v@.len() ==> #[trigger] v@[i] <= max_iterations,
{
    let n = canvas_size.pixel_count();
    let canvas = &canvas_size;
    let each = |i: u32| -> (r: u32)
        requires
            i < canvas@.pixel_count(),
        ensures
            r == direct_count(canvas@, i as nat, max_iterations),
            r <= max_iterations,
        { pixel_direct(canvas, i, max_iterations) };
    let v = par_map_range(n, each);
    assert(v@ =~= Seq::new(
        canvas_size@.pixel_count(),
        |i: int| direct_count(canvas_size@, i as nat, max_iterations),
    ));
    v
}

/// Evaluates every pixel of the viewport in the companion number type.
///
/// The result holds one iteration count per pixel, in row-major order; a count
/// equal to `max_iterations` marks a point that did not escape.
pub fn calculate_all_float<T: Approx + Sync>(canvas_size: CanvasSize<T>, max_iterations: u32) -> (v:
    Vec<u32>)
    ensures
        v@ == Seq::new(
            canvas_size@.pixel_count(),
            |i: int| narrowed_count(canvas_size@, i as nat, max_iterations),
        ),
        forall|i: int| 0 <= i < v@.len() ==> #[trigger] v@[i] <= max_iterations,
{
    let n = canvas_size.pixel_count();
    let canvas = &canvas_size;
    let each = |i: u32| -> (r: u32)
        requires
            i < canvas@.pixel_count(),
        ensures
            r == narrowed_count(canvas@, i as nat, max_iterations),
            r <= max_iterations,
        { pixel_narrowed(canvas, i, max_iterations) };
    let v = par_map_range(n, each);
    assert(v@ =~= Seq::new(
        canvas_size@.pixel_count(),
        |i: int| narrowed_count(canvas_size@, i as nat, max_iterations),
    ));
    v
}

/// Evaluates every pixel of the viewport by perturbation of the orbit of
/// pixel 0, which is computed once in the viewport's own number type.
///
/// The result holds one iteration count per pixel, in row-major order; a count
/// equal to `max_iterations` marks a point that did not escape.
pub fn calculate_all_delta<T: Approx + Sync>(canvas_size: CanvasSize<T>, max_iterations: u32) -> (v:
    Vec<u32>)
    ensures
        v@ == Seq::new(
            canvas_size@.pixel_count(),
            |i: int| delta_count(canvas_size@, i as nat, max_iterations) as u32,
        ),
        forall|i: int|
            0 <= i < canvas_size@.pixel_count() ==> #[trigger] delta_count(
                canvas_size@,
                i as nat,
                max_iterations,
            ) <= max_iterations,
        forall|i: int| 0 <= i < v@.len() ==> #[trigger] v@[i] <= max_iterations,
{
    let n = canvas_size.pixel_count();
    let canvas = &canvas_size;
    let reference_coord = point_of_pixel(canvas, 0);
    let reference = iterate_all(
        reference_coord[0].dup(),
        reference_coord[1].dup(),
        max_iterations,
    );
    proof {
        lemma_orbit_len(
            reference_coord[0],
            reference_coord[1],
            T::from_u32_spec(0),
            T::from_u32_spec(0),
            max_iterations as nat,
        );
    }
    let reference_ref = &reference;
    let coord_ref = &reference_coord;
    let each = |i: u32| -> (r: u32)
        requires
            i < canvas@.pixel_count(),
        ensures
            r == delta_count(canvas@, i as nat, max_iterations),
            r <= max_iterations,
        {
            let c = point_of_pixel(canvas, i);
            pixel_delta(reference_ref, coord_ref, &c, max_iterations)
        };
    let v = par_map_range(n, each);
    assert(v@ =~= Seq::new(
        canvas_size@.pixel_count(),
        |i: int| delta_count(canvas_size@, i as nat, max_iterations) as u32,
    ));
    assert forall|i: int| 0 <= i < canvas_size@.pixel_count() implies #[trigger] delta_count(
        canvas_size@,
        i as nat,
        max_iterations,
    ) <= max_iterations by {
        let c_ref = pixel_point(canvas_size@, 0);
        lemma_perturbed_count_bound(
            orbit(c_ref.0, c_ref.1, max_iterations as nat),
            c_ref,
            pixel_point(canvas_size@, i as nat),
            max_iterations,
        );
    }
    v
}

} // verus!
