//! The viewport: a pixel grid laid over a rectangle of the complex plane.
use vstd::prelude::*;
use crate::scalar::Scalar;
use crate::scalar::keeps_value;

verus! {

/// The mathematical content of a [`CanvasSize`]: the pixel grid and the four
/// bounds of the rectangle it shows.
pub struct Viewport<T> {
    pub pixel_width: u32,
    pub pixel_height: u32,
    pub top: T,
    pub bottom: T,
    pub left: T,
    pub right: T,
}

/// Whether a grid of these dimensions has at least one pixel and few enough
/// for a pixel index to fit in 32 bits.
pub open spec fn grid_valid(pixel_width: u32, pixel_height: u32) -> bool {
    &&& pixel_width > 0
    &&& pixel_height > 0
    &&& pixel_width * pixel_height <= u32::MAX
}

impl<T: Scalar> Viewport<T> {
    /// A viewport is valid when its grid is and its rectangle has positive
    /// width and height.
    pub open spec fn valid(self) -> bool {
        &&& grid_valid(self.pixel_width, self.pixel_height)
        &&& self.left.lt_spec(self.right)
        &&& self.bottom.lt_spec(self.top)
    }

    /// Extent of the rectangle along the real axis.
    pub open spec fn width(self) -> T {
        self.right.sub_spec(self.left)
    }

    /// Extent of the rectangle along the imaginary axis.
    pub open spec fn height(self) -> T {
        self.top.sub_spec(self.bottom)
    }

    /// The middle of the rectangle: each lower bound plus half the extent.
    pub open spec fn center(self) -> (T, T) {
        (
            self.left.add_spec(self.width().scale_spec(1, 2)),
            self.bottom.add_spec(self.height().scale_spec(1, 2)),
        )
    }

    /// The zoom factor: three plane units divided by the width.
    pub open spec fn zoom_factor(self) -> T {
        T::from_u32_spec(3).div_spec(self.width())
    }

    /// The viewport around `(cx, cy)` at the given zoom: `3 / zoom` wide, and as
    /// high as the grid's aspect ratio asks.
    pub open spec fn from_center(pixel_width: u32, pixel_height: u32, cx: T, cy: T, zoom: T) -> Self {
        let width = T::from_u32_spec(3).div_spec(zoom);
        let height = width.scale_spec(pixel_height, pixel_width);
        Viewport {
            pixel_width,
            pixel_height,
            top: cy.add_spec(height.scale_spec(1, 2)),
            bottom: cy.sub_spec(height.scale_spec(1, 2)),
            left: cx.sub_spec(width.scale_spec(1, 2)),
            right: cx.add_spec(width.scale_spec(1, 2)),
        }
    }

    /// The same center seen at `factor` times the zoom.
    pub open spec fn zoomed(self, factor: T) -> Self {
        Self::from_center(
            self.pixel_width,
            self.pixel_height,
            self.center().0,
            self.center().1,
            self.zoom_factor().mul_spec(factor),
        )
    }

    /// The same zoom around another center.
    pub open spec fn recentered(self, cx: T, cy: T) -> Self {
        Self::from_center(self.pixel_width, self.pixel_height, cx, cy, self.zoom_factor())
    }

    /// The plane point shown at pixel `(px, py)`, by linear interpolation from
    /// the left and the top bound.
    pub open spec fn coordinates(self, px: u32, py: u32) -> (T, T) {
        (
            self.left.add_spec(self.right.sub_spec(self.left).scale_spec(px, self.pixel_width)),
            self.top.add_spec(self.bottom.sub_spec(self.top).scale_spec(py, self.pixel_height)),
        )
    }

    /// The bounds carried over to `bits` bits of precision, where the number
    /// type offers it for all four.
    pub open spec fn with_prec(self, bits: usize) -> Option<Self> {
        match (
            self.top.with_prec_spec(bits),
            self.bottom.with_prec_spec(bits),
            self.left.with_prec_spec(bits),
            self.right.with_prec_spec(bits),
        ) {
            (Some(top), Some(bottom), Some(left), Some(right)) => Some(
                Viewport {
                    pixel_width: self.pixel_width,
                    pixel_height: self.pixel_height,
                    top,
                    bottom,
                    left,
                    right,
                },
            ),
            _ => None,
        }
    }

    /// Whether all four bounds carry `bits` bits of precision.
    pub open spec fn carries(self, bits: usize) -> bool {
        &&& self.top.prec_spec() == bits
        &&& self.bottom.prec_spec() == bits
        &&& self.left.prec_spec() == bits
        &&& self.right.prec_spec() == bits
    }

    /// Whether each bound of `self` has the value of the same bound of `old`
    /// where `bits` is no less than the precision of that bound.
    pub open spec fn keeps_values_of(self, old: Self, bits: usize) -> bool {
        &&& keeps_value(old.top, self.top, bits)
        &&& keeps_value(old.bottom, self.bottom, bits)
        &&& keeps_value(old.left, self.left, bits)
        &&& keeps_value(old.right, self.right, bits)
    }

    /// Number of pixels in the grid.
    pub open spec fn pixel_count(self) -> nat {
        (self.pixel_width * self.pixel_height) as nat
    }

    /// Row-major index of the pixel in column `x` and row `y`.
    pub open spec fn coord_to_idx(self, x: u32, y: u32) -> nat {
        (self.pixel_width * y + x) as nat
    }

    /// Column and row of the pixel with row-major index `idx`.
    pub open spec fn idx_to_coord(self, idx: nat) -> (nat, nat) {
        (idx % (self.pixel_width as nat), idx / (self.pixel_width as nat))
    }

    /// Whether column `x` and row `y` lie on the grid.
    pub open spec fn on_grid(self, x: u32, y: u32) -> bool {
        x < self.pixel_width && y < self.pixel_height
    }
}

/// Whether the offset `h` cancels around `c` without rounding: half the
/// distance from `c - h` to `c + h` is `h`, and `c - h` plus `h` is `c`.
pub open spec fn cancels<T: Scalar>(c: T, h: T) -> bool {
    &&& c.add_spec(h).sub_spec(c.sub_spec(h)).scale_spec(1, 2) == h
    &&& c.sub_spec(h).add_spec(h) == c
}

/// Half the width and half the height of the viewport that
/// `Viewport::from_center` lays out at the given zoom.
pub open spec fn half_extents<T: Scalar>(pixel_width: u32, pixel_height: u32, zoom: T) -> (T, T) {
    let width = T::from_u32_spec(3).div_spec(zoom);
    let height = width.scale_spec(pixel_height, pixel_width);
    (width.scale_spec(1, 2), height.scale_spec(1, 2))
}

/// A viewport laid out around a center has exactly that center, in every
/// number type and for every center around which the half extents cancel.
pub proof fn lemma_center_of_from_center<T: Scalar>(
    pixel_width: u32,
    pixel_height: u32,
    cx: T,
    cy: T,
    zoom: T,
)
    requires
        cancels(cx, half_extents(pixel_width, pixel_height, zoom).0),
        cancels(cy, half_extents(pixel_width, pixel_height, zoom).1),
    ensures
        Viewport::from_center(pixel_width, pixel_height, cx, cy, zoom).center() == (cx, cy),
{
}

/// Moving the center of a viewport puts the center exactly where it was
/// asked for, in every number type and for every center around which the
/// half extents cancel.
pub proof fn lemma_center_after_move<T: Scalar>(v: Viewport<T>, cx: T, cy: T)
    requires
        cancels(cx, half_extents(v.pixel_width, v.pixel_height, v.zoom_factor()).0),
        cancels(cy, half_extents(v.pixel_width, v.pixel_height, v.zoom_factor()).1),
    ensures
        v.recentered(cx, cy).center() == (cx, cy),
{
}

/// Zooming keeps the center of a viewport exactly, in every number type, as
/// long as the new half extents cancel around the center.
pub proof fn lemma_center_after_zoom<T: Scalar>(v: Viewport<T>, factor: T)
    requires
        cancels(
            v.center().0,
            half_extents(v.pixel_width, v.pixel_height, v.zoom_factor().mul_spec(factor)).0,
        ),
        cancels(
            v.center().1,
            half_extents(v.pixel_width, v.pixel_height, v.zoom_factor().mul_spec(factor)).1,
        ),
    ensures
        v.zoomed(factor).center() == v.center(),
{
}

/// Zooming there and back restores a viewport that was laid out around a
/// center: in every number type, zooming by `k` and then by `q` gives the
/// viewport again, bounds and grid, wherever the half extents cancel around
/// the center on the way and the zoom factor comes back without rounding.
pub proof fn lemma_zoom_there_and_back<T: Scalar>(
    pixel_width: u32,
    pixel_height: u32,
    cx: T,
    cy: T,
    zoom: T,
    k: T,
    q: T,
)
    requires
        cancels(cx, half_extents(pixel_width, pixel_height, zoom).0),
        cancels(cy, half_extents(pixel_width, pixel_height, zoom).1),
        ({
            let v = Viewport::from_center(pixel_width, pixel_height, cx, cy, zoom);
            let there = half_extents(pixel_width, pixel_height, v.zoom_factor().mul_spec(k));
            &&& cancels(cx, there.0)
            &&& cancels(cy, there.1)
            &&& v.zoomed(k).zoom_factor().mul_spec(q) == zoom
        }),
    ensures
        Viewport::from_center(pixel_width, pixel_height, cx, cy, zoom).zoomed(k).zoomed(q)
            == Viewport::from_center(pixel_width, pixel_height, cx, cy, zoom),
{
    let v = Viewport::from_center(pixel_width, pixel_height, cx, cy, zoom);
    lemma_center_of_from_center(pixel_width, pixel_height, cx, cy, zoom);
    lemma_center_after_zoom(v, k);
}

/// Every pixel of a grid has an index below the pixel count.
pub proof fn lemma_idx_in_range<T: Scalar>(v: Viewport<T>, x: u32, y: u32)
    requires
        v.on_grid(x, y),
    ensures
        v.coord_to_idx(x, y) < v.pixel_count(),
{
    assert(v.pixel_width * y + x < v.pixel_width * v.pixel_height) by (nonlinear_arith)
        requires
            x < v.pixel_width,
            y < v.pixel_height,
    ;
}

/// Index to coordinate and back is the identity: for every index `i` below the
/// pixel count, `idx_to_coord(i)` lies on the grid and `coord_to_idx` maps it
/// to `i` again.
pub proof fn lemma_idx_round_trip<T: Scalar>(v: Viewport<T>, i: nat)
    requires
        grid_valid(v.pixel_width, v.pixel_height),
        i < v.pixel_count(),
    ensures
        v.idx_to_coord(i).0 < v.pixel_width,
        v.idx_to_coord(i).1 < v.pixel_height,
        v.coord_to_idx(v.idx_to_coord(i).0 as u32, v.idx_to_coord(i).1 as u32) == i,
{
    let w = v.pixel_width as int;
    let h = v.pixel_height as int;
    let i = i as int;
    assert(i == w * (i / w) + i % w && 0 <= i % w < w) by (nonlinear_arith)
        requires
            w > 0,
            i >= 0,
    ;
    assert(i / w < h) by (nonlinear_arith)
        requires
            w > 0,
            0 <= i < w * h,
    ;
    assert(0 <= i / w) by (nonlinear_arith)
        requires
            w > 0,
            i >= 0,
    ;
}

/// Coordinate to index and back is the identity: for every pixel `(x, y)` on
/// the grid, `idx_to_coord(coord_to_idx(x, y))` is `(x, y)`.
pub proof fn lemma_coord_round_trip<T: Scalar>(v: Viewport<T>, x: u32, y: u32)
    requires
        v.on_grid(x, y),
    ensures
        v.idx_to_coord(v.coord_to_idx(x, y)) == (x as nat, y as nat),
{
    let w = v.pixel_width as int;
    let xi = x as int;
    let yi = y as int;
    assert((w * yi + xi) / w == yi && (w * yi + xi) % w == xi) by (nonlinear_arith)
        requires
            0 <= xi < w,
            0 <= yi,
    ;
}

/// A viewport: pixel dimensions and the plane rectangle they show.
///
/// Every value of this type is valid in the sense of [`Viewport::valid`]. A
/// viewport is never changed in place: each transform returns a new one.
pub struct CanvasSize<T: Scalar> {
    pixel_width: u32,
    pixel_height: u32,
    top: T,
    bottom: T,
    left: T,
    right: T,
}

impl<T: Scalar> View for CanvasSize<T> {
    type V = Viewport<T>;

    closed spec fn view(&self) -> Viewport<T> {
        Viewport {
            pixel_width: self.pixel_width,
            pixel_height: self.pixel_height,
            top: self.top,
            bottom: self.bottom,
            left: self.left,
            right: self.right,
        }
    }
}

/// Tests whether a grid of these dimensions is valid.
pub fn grid_is_valid(pixel_width: u32, pixel_height: u32) -> (b: bool)
    ensures
        b == grid_valid(pixel_width, pixel_height),
{
    if pixel_width == 0 || pixel_height == 0 {
        return false;
    }
    assert(pixel_width * pixel_height <= 0xffff_ffff * 0xffff_ffff) by (nonlinear_arith)
        requires
            pixel_width <= 0xffff_ffff,
            pixel_height <= 0xffff_ffff,
    ;
    let area: u64 = pixel_width as u64 * pixel_height as u64;
    area <= u32::MAX as u64
}

impl<T: Scalar> CanvasSize<T> {
    #[verifier::type_invariant]
    spec fn inv(self) -> bool {
        self@.valid()
    }

    /// Builds a viewport from its parts. The caller vouches for their validity.
    pub fn new(
        pixel_width: u32,
        pixel_height: u32,
        top: T,
        bottom: T,
        left: T,
        right: T,
    ) -> (c: CanvasSize<T>)
        requires
            (Viewport { pixel_width, pixel_height, top, bottom, left, right }).valid(),
        ensures
            c@ == (Viewport { pixel_width, pixel_height, top, bottom, left, right }),
    {
        CanvasSize { pixel_width, pixel_height, top, bottom, left, right }
    }

    /// Builds a viewport from its parts, or rejects them: the result is `None`
    /// exactly when the parts do not make a valid viewport.
    pub fn try_new(
        pixel_width: u32,
        pixel_height: u32,
        top: T,
        bottom: T,
        left: T,
        right: T,
    ) -> (r: Option<CanvasSize<T>>)
        ensures
            r is Some <==> (Viewport { pixel_width, pixel_height, top, bottom, left, right }).valid(),
            r matches Some(c) ==> c@ == (Viewport {
                pixel_width,
                pixel_height,
                top,
                bottom,
                left,
                right,
            }),
    {
        if grid_is_valid(pixel_width, pixel_height) && left.lt(&right) && bottom.lt(&top) {
            Some(CanvasSize { pixel_width, pixel_height, top, bottom, left, right })
        } else {
            None
        }
    }

    /// Width of the grid in pixels.
    pub fn pixel_width(&self) -> (w: u32)
        ensures
            w == self@.pixel_width,
    {
        self.pixel_width
    }

    /// Height of the grid in pixels.
    pub fn pixel_height(&self) -> (h: u32)
        ensures
            h == self@.pixel_height,
    {
        self.pixel_height
    }

    /// The upper bound along the imaginary axis.
    pub fn top(&self) -> (t: &T)
        ensures
            *t == self@.top,
    {
        &self.top
    }

    /// The lower bound along the imaginary axis.
    pub fn bottom(&self) -> (b: &T)
        ensures
            *b == self@.bottom,
    {
        &self.bottom
    }

    /// The lower bound along the real axis.
    pub fn left(&self) -> (l: &T)
        ensures
            *l == self@.left,
    {
        &self.left
    }

    /// The upper bound along the real axis.
    pub fn right(&self) -> (r: &T)
        ensures
            *r == self@.right,
    {
        &self.right
    }

    /// The precision, in bits, that the bounds carry.
    pub fn get_prec(&self) -> (bits: usize)
        ensures
            bits == self@.top.prec_spec(),
    {
        self.top.prec()
    }

    /// The same viewport with its bounds carried over to `prec` bits, or `None`
    /// where the number type does not offer that precision or the bounds no
    /// longer span a rectangle at it. Where `prec` is no less than the
    /// precision of a bound, the bound keeps its value.
    pub fn set_prec(&self, prec: usize) -> (r: Option<CanvasSize<T>>)
        ensures
            r is Some <==> (self@.with_prec(prec) matches Some(v) && v.valid()),
            r matches Some(c) ==> Some(c@) == self@.with_prec(prec),
            r matches Some(c) ==> c@.carries(prec),
            r matches Some(c) ==> c@.keeps_values_of(self@, prec),
    {
        let new_top = self.top.with_prec(prec);
        let new_bottom = self.bottom.with_prec(prec);
        let new_left = self.left.with_prec(prec);
        let new_right = self.right.with_prec(prec);
        match (new_top, new_bottom, new_left, new_right) {
            (Some(top), Some(bottom), Some(left), Some(right)) => CanvasSize::try_new(
                self.pixel_width,
                self.pixel_height,
                top,
                bottom,
                left,
                right,
            ),
            _ => None,
        }
    }

    /// The viewport around `center` at the given zoom, or `None` exactly when
    /// that viewport would not be valid.
    pub fn new_from_center(pixel_width: u32, pixel_height: u32, center: [T; 2], zoom: T) -> (r:
        Option<CanvasSize<T>>)
        ensures
            r is Some <==> Viewport::from_center(
                pixel_width,
                pixel_height,
                center[0],
                center[1],
                zoom,
            ).valid(),
            r matches Some(c) ==> c@ == Viewport::from_center(
                pixel_width,
                pixel_height,
                center[0],
                center[1],
                zoom,
            ),
    {
        if pixel_width == 0 || pixel_height == 0 {
            return None;
        }
        let width = T::from_u32(3).div(&zoom);
        let height = width.scale(pixel_height, pixel_width);

        let top = center[1].add(&height.scale(1, 2));
        let bottom = center[1].sub(&height.scale(1, 2));
        let right = center[0].add(&width.scale(1, 2));
        let left = center[0].sub(&width.scale(1, 2));

        CanvasSize::try_new(pixel_width, pixel_height, top, bottom, left, right)
    }

    /// Extent of the rectangle along the real axis.
    pub fn width(&self) -> (w: T)
        ensures
            w == self@.width(),
    {
        self.right.sub(&self.left)
    }

    /// Extent of the rectangle along the imaginary axis.
    pub fn height(&self) -> (h: T)
        ensures
            h == self@.height(),
    {
        self.top.sub(&self.bottom)
    }

    /// The middle of the rectangle.
    pub fn center(&self) -> (c: [T; 2])
        ensures
            c[0] == self@.center().0,
            c[1] == self@.center().1,
    {
        let x = self.left.add(&self.width().scale(1, 2));
        let y = self.bottom.add(&self.height().scale(1, 2));
        [x, y]
    }

    /// The same center seen at `zoom` times the present zoom, or `None` exactly
    /// when that viewport would not be valid.
    pub fn zoom(&self, zoom: T) -> (r: Option<CanvasSize<T>>)
        ensures
            r is Some <==> self@.zoomed(zoom).valid(),
            r matches Some(c) ==> c@ == self@.zoomed(zoom),
    {
        CanvasSize::new_from_center(
            self.pixel_width,
            self.pixel_height,
            self.center(),
            self.get_zoom().mul(&zoom),
        )
    }

    /// The zoom factor: three plane units divided by the width.
    pub fn get_zoom(&self) -> (z: T)
        ensures
            z == self@.zoom_factor(),
    {
        T::from_u32(3).div(&self.width())
    }

    /// The same zoom around `new_center`, or `None` exactly when that
    /// viewport would not be valid.
    pub fn move_center(&self, new_center: [T; 2]) -> (r: Option<CanvasSize<T>>)
        ensures
            r is Some <==> self@.recentered(new_center[0], new_center[1]).valid(),
            r matches Some(c) ==> c@ == self@.recentered(new_center[0], new_center[1]),
    {
        CanvasSize::new_from_center(
            self.pixel_width,
            self.pixel_height,
            new_center,
            self.get_zoom(),
        )
    }

    /// The same zoom around the plane point shown at pixel `coord`, or `None`
    /// exactly when that viewport would not be valid.
    pub fn move_center_to_pixel(&self, coord: [u32; 2]) -> (r: Option<CanvasSize<T>>)
        requires
            self@.on_grid(coord[0], coord[1]),
        ensures
            r is Some <==> self@.recentered(
                self@.coordinates(coord[0], coord[1]).0,
                self@.coordinates(coord[0], coord[1]).1,
            ).valid(),
            r matches Some(c) ==> c@ == self@.recentered(
                self@.coordinates(coord[0], coord[1]).0,
                self@.coordinates(coord[0], coord[1]).1,
            ),
    {
        let new_center = self.coordinates(coord);
        self.move_center(new_center)
    }

    /// The plane point shown at a pixel of the grid.
    pub fn coordinates(&self, pixel_coordinates: [u32; 2]) -> (p: [T; 2])
        requires
            self@.on_grid(pixel_coordinates[0], pixel_coordinates[1]),
        ensures
            p[0] == self@.coordinates(pixel_coordinates[0], pixel_coordinates[1]).0,
            p[1] == self@.coordinates(pixel_coordinates[0], pixel_coordinates[1]).1,
    {
        proof {
            use_type_invariant(self);
        }
        let x = self.left.add(
            &self.right.sub(&self.left).scale(pixel_coordinates[0], self.pixel_width),
        );
        let y = self.top.add(
            &self.bottom.sub(&self.top).scale(pixel_coordinates[1], self.pixel_height),
        );
        [x, y]
    }

    /// Row-major index of a pixel of the grid.
    pub fn coord_to_idx(&self, c: [u32; 2]) -> (idx: usize)
        requires
            self@.on_grid(c[0], c[1]),
        ensures
            idx == self@.coord_to_idx(c[0], c[1]),
            idx < self@.pixel_count(),
    {
        proof {
            use_type_invariant(self);
            lemma_idx_in_range(self@, c[0], c[1]);
        }
        (self.pixel_width * c[1] + c[0]) as usize
    }

    /// Column and row of the pixel with a given row-major index.
    pub fn idx_to_coord(&self, idx: usize) -> (c: [u32; 2])
        requires
            idx < self@.pixel_count(),
        ensures
            c[0] == self@.idx_to_coord(idx as nat).0,
            c[1] == self@.idx_to_coord(idx as nat).1,
            self@.on_grid(c[0], c[1]),
            self@.coord_to_idx(c[0], c[1]) == idx,
    {
        proof {
            use_type_invariant(self);
            lemma_idx_round_trip(self@, idx as nat);
        }
        let i = idx as u32;
        let y = i / self.pixel_width;
        assert(y * self.pixel_width <= i) by (nonlinear_arith)
            requires
                y == i / self.pixel_width,
                self.pixel_width > 0,
        ;
        let x = i - y * self.pixel_width;
        assert(x == i % self.pixel_width) by (nonlinear_arith)
            requires
                x == i - (i / self.pixel_width) * self.pixel_width,
                self.pixel_width > 0,
        ;
        [x, y]
    }

    /// Number of pixels in the grid: width times height.
    pub fn pixel_count(&self) -> (n: u32)
        ensures
            n == self@.pixel_width * self@.pixel_height,
            n == self@.pixel_count(),
            n > 0,
            self@.valid(),
    {
        proof {
            use_type_invariant(self);
            assert(self.pixel_width * self.pixel_height > 0) by (nonlinear_arith)
                requires
                    self.pixel_width > 0,
                    self.pixel_height > 0,
            ;
        }
        self.pixel_width * self.pixel_height
    }
}

impl<T: Scalar> Clone for CanvasSize<T> {
    fn clone(&self) -> (c: Self)
        ensures
            c@ == self@,
    {
        proof {
            use_type_invariant(self);
        }
        CanvasSize {
            pixel_width: self.pixel_width,
            pixel_height: self.pixel_height,
            top: self.top.dup(),
            bottom: self.bottom.dup(),
            left: self.left.dup(),
            right: self.right.dup(),
        }
    }
}

} // verus!
