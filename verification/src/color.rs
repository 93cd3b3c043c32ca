//! From iteration counts to colours, and to an image.
use vstd::prelude::*;
use crate::scalar::Scalar;
use crate::canvas::CanvasSize;

verus! {

/// Number of steps in the colour gradient; counts wrap around it.
pub const N_COLORS: u32 = 256;

/// The colour of points that did not escape.
pub const BLACK: [u8; 3] = [0u8, 0u8, 0u8];

/// A cyclic colour gradient, sampled at `N_COLORS` evenly spaced positions:
/// entry `k` is the colour at position `k / N_COLORS`.
pub struct Gradient {
    colors: Vec<[u8; 3]>,
}

impl View for Gradient {
    type V = Seq<[u8; 3]>;

    closed spec fn view(&self) -> Seq<[u8; 3]> {
        self.colors@
    }
}

impl Gradient {
    #[verifier::type_invariant]
    spec fn inv(self) -> bool {
        self.colors@.len() == N_COLORS
    }

    /// Takes the sampled colours, or rejects them: the result is `None` exactly
    /// when their number is not `N_COLORS`.
    pub fn new(colors: Vec<[u8; 3]>) -> (r: Option<Gradient>)
        ensures
            r is Some <==> colors@.len() == N_COLORS,
            r matches Some(g) ==> g@ == colors@,
    {
        if colors.len() == N_COLORS as usize {
            Some(Gradient { colors })
        } else {
            None
        }
    }

    /// The colour at step `step` of the gradient.
    pub fn color(&self, step: u32) -> (c: [u8; 3])
        requires
            step < N_COLORS,
        ensures
            c == self@[step as int],
            self@.len() == N_COLORS,
    {
        proof {
            use_type_invariant(self);
        }
        self.colors[step as usize]
    }
}

impl Clone for Gradient {
    fn clone(&self) -> (g: Self)
        ensures
            g@ == self@,
    {
        proof {
            use_type_invariant(self);
        }
        let mut colors: Vec<[u8; 3]> = Vec::new();
        let mut k: usize = 0;
        while k < self.colors.len()
            invariant
                k <= self.colors@.len(),
                colors@ == self.colors@.subrange(0, k as int),
            decreases self.colors@.len() - k,
        {
            colors.push(self.colors[k]);
            k += 1;
            assert(colors@ =~= self.colors@.subrange(0, k as int));
        }
        assert(colors@ =~= self.colors@);
        Gradient { colors }
    }
}

/// The colour of a pixel result: black for the budget itself, and otherwise
/// the gradient at the count taken modulo `N_COLORS`.
pub open spec fn color_of(iterations: u32, max_iterations: u32, gradient: Seq<[u8; 3]>) -> [u8; 3] {
    if iterations == max_iterations {
        BLACK
    } else {
        gradient[(iterations % N_COLORS) as int]
    }
}

/// A point that did not escape is black, whatever the gradient.
pub proof fn lemma_unescaped_is_black(max_iterations: u32, gradient: Seq<[u8; 3]>)
    ensures
        color_of(max_iterations, max_iterations, gradient) == BLACK,
{
}

/// The gradient is cyclic: two counts that are `N_COLORS` apart have the same
/// colour, unless one of them is the budget.
pub proof fn lemma_color_wraps(iterations: u32, max_iterations: u32, gradient: Seq<[u8; 3]>)
    requires
        iterations + N_COLORS <= u32::MAX,
        iterations != max_iterations,
        iterations + N_COLORS != max_iterations,
    ensures
        color_of(iterations, max_iterations, gradient) == color_of(
            (iterations + N_COLORS) as u32,
            max_iterations,
            gradient,
        ),
{
}

/// Maps a pixel result to its colour.
pub fn color_from_iteration(iterations: u32, max_iterations: u32, gradient: &Gradient) -> (c: [
    u8;
    3
])
    ensures
        c == color_of(iterations, max_iterations, gradient@),
        iterations == max_iterations ==> c == BLACK,
{
    if iterations == max_iterations {
        BLACK
    } else {
        gradient.color(iterations % N_COLORS)
    }
}

/// An RGB image with eight bits per channel.
///
/// Trusted: the image is an `image::RgbImage`, which is opaque here. What it
/// holds is known through `image_size` and `image_pixels` only.
#[verifier::external_body]
pub struct Picture {
    inner: image::RgbImage,
}

/// Width and height of an image, in pixels.
pub uninterp spec fn image_size(img: Picture) -> (u32, u32);

/// The pixels of an image, by column and row.
pub uninterp spec fn image_pixels(img: Picture) -> Map<(u32, u32), [u8; 3]>;

/// Whether `p` is a pixel of an image of the given size.
pub open spec fn in_image(size: (u32, u32), p: (u32, u32)) -> bool {
    p.0 < size.0 && p.1 < size.1
}

/// Builds an image of the given size whose pixel at `(x, y)` is `f(x, y)`.
///
/// Trusted: the body is `image::ImageBuffer::from_fn`, which makes a buffer
/// of that size and stores at every pixel what `f` returns for the pixel's
/// column and row; `f` is called for pixels of the image only. It panics
/// when three bytes per pixel exceed what a vector can hold, which the
/// precondition rules out.
#[verifier::external_body]
fn image_from_fn<F: Fn(u32, u32) -> [u8; 3]>(width: u32, height: u32, f: F) -> (img: Picture)
    requires
        3 * width * height <= isize::MAX,
        forall|p: (u32, u32)| in_image((width, height), p) ==> call_requires(f, p),
    ensures
        image_size(img) == (width, height),
        image_pixels(img).dom() == Set::new(|p: (u32, u32)| in_image((width, height), p)),
        forall|p: (u32, u32)|
            in_image((width, height), p) ==> call_ensures(f, p, #[trigger] image_pixels(img)[p]),
{
    Picture { inner: image::RgbImage::from_fn(width, height, |x, y| image::Rgb(f(x, y))) }
}

/// Trusted: the body is `image::ImageBuffer::dimensions`, which returns the
/// width and height the image was made with.
#[verifier::external_body]
fn image_dimensions(img: &Picture) -> (size: (u32, u32))
    ensures
        size == image_size(*img),
{
    img.inner.dimensions()
}

/// Position of channel `k` of pixel `p` in the raw buffer of an image that is
/// `width` pixels wide.
pub open spec fn raw_index(width: u32, p: (u32, u32), k: int) -> int {
    (p.1 * width + p.0) * 3 + k
}

/// Trusted: the body is `image::ImageBuffer::into_raw`, which hands out the
/// buffer behind the image: three bytes per pixel, red first, the pixels row
/// by row from the top, each row from the left.
#[verifier::external_body]
fn image_into_raw(img: Picture) -> (raw: Vec<u8>)
    ensures
        raw@.len() == 3 * image_size(img).0 * image_size(img).1,
        forall|p: (u32, u32), k: int|
            in_image(image_size(img), p) && 0 <= k < 3 ==> raw@[#[trigger] raw_index(
                image_size(img).0,
                p,
                k,
            )] == image_pixels(img)[p][k],
{
    img.inner.into_raw()
}

/// Trusted: the body is the `clone` of `image::ImageBuffer`, which copies
/// the dimensions and the buffer behind the image.
#[verifier::external_body]
fn image_clone(img: &Picture) -> (copy: Picture)
    ensures
        image_size(copy) == image_size(*img),
        image_pixels(copy) == image_pixels(*img),
{
    Picture { inner: img.inner.clone() }
}

impl Clone for Picture {
    fn clone(&self) -> (copy: Self)
        ensures
            image_size(copy) == image_size(*self),
            image_pixels(copy) == image_pixels(*self),
    {
        image_clone(self)
    }
}

impl Picture {
    /// Width and height of the image, in pixels.
    pub fn dimensions(&self) -> (size: (u32, u32))
        ensures
            size == image_size(*self),
    {
        image_dimensions(self)
    }

    /// The bytes of the image: three per pixel, red first, the pixels row by
    /// row from the top, each row from the left.
    pub fn into_raw(self) -> (raw: Vec<u8>)
        ensures
            raw@.len() == 3 * image_size(self).0 * image_size(self).1,
            forall|p: (u32, u32), k: int|
                in_image(image_size(self), p) && 0 <= k < 3 ==> raw@[#[trigger] raw_index(
                    image_size(self).0,
                    p,
                    k,
                )] == image_pixels(self)[p][k],
    {
        image_into_raw(self)
    }
}

/// The colour of pixel `p` in the rendering of `data`.
pub open spec fn rendered<T: Scalar>(
    data: Seq<u32>,
    canvas: crate::canvas::Viewport<T>,
    max_iterations: u32,
    gradient: Seq<[u8; 3]>,
    p: (u32, u32),
) -> [u8; 3] {
    color_of(data[canvas.coord_to_idx(p.0, p.1) as int], max_iterations, gradient)
}

/// Renders pixel results to an image of the viewport's dimensions: the pixel
/// in column `x` and row `y` gets the colour of the result at the row-major
/// index of `(x, y)`.
pub fn make_image<T: Scalar>(
    data: Vec<u32>,
    canvas_size: CanvasSize<T>,
    max_iterations: u32,
    gradient: &Gradient,
) -> (img: Picture)
    requires
        data@.len() == canvas_size@.pixel_count(),
        3 * canvas_size@.pixel_count() <= isize::MAX,
    ensures
        image_size(img) == (canvas_size@.pixel_width, canvas_size@.pixel_height),
        image_pixels(img).dom() == Set::new(|p: (u32, u32)| in_image(image_size(img), p)),
        forall|p: (u32, u32)|
            in_image(image_size(img), p) ==> #[trigger] image_pixels(img)[p] == rendered(
                data@,
                canvas_size@,
                max_iterations,
                gradient@,
                p,
            ),
{
    let n = canvas_size.pixel_count();
    let canvas = &canvas_size;
    let data_ref = &data;
    let each = |x: u32, y: u32| -> (c: [u8; 3])
        requires
            canvas@.on_grid(x, y),
        ensures
            c == rendered(data_ref@, canvas@, max_iterations, gradient@, (x, y)),
        {
            let i = data_ref[canvas.coord_to_idx([x, y])];
            color_from_iteration(i, max_iterations, gradient)
        };
    let width = canvas.pixel_width();
    let height = canvas.pixel_height();
    assert(3 * width * height == 3 * (width * height)) by (nonlinear_arith);
    image_from_fn(width, height, each)
}

} // verus!
