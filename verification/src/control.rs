//! The interactive session: a viewport, an iteration budget, an algorithm,
//! and the image they give.
use vstd::prelude::*;
use crate::scalar::Scalar;
use crate::scalar::Approx;
use crate::canvas::Viewport;
use crate::canvas::CanvasSize;
use crate::evaluate::direct_count;
use crate::evaluate::delta_count;
use crate::evaluate::calculate_all_mpfr;
use crate::evaluate::calculate_all_delta;
use crate::color::Gradient;
use crate::color::Picture;
use crate::color::image_size;
use crate::color::image_pixels;
use crate::color::in_image;
use crate::color::rendered;
use crate::color::make_image;

verus! {

/// By how much one key press changes the iteration budget.
pub const BUDGET_STEP: u32 = 1000;

/// The factor of one zoom step.
pub const ZOOM_STEP: u32 = 8;

/// The algorithm that evaluates the pixels.
#[derive(Clone, Copy, Debug)]
pub enum Generator {
    /// Every pixel is iterated in the viewport's own number type.
    Direct,
    /// One reference orbit is iterated in the viewport's own number type and
    /// every pixel is derived from it.
    Perturbation,
}

/// What the user asks for.
#[derive(Clone, Copy)]
pub enum Action {
    /// Center the view on a pixel and zoom in by one step.
    ZoomIn([u32; 2]),
    /// Zoom out by one step.
    ZoomOut,
    /// Raise the iteration budget by one step.
    MaxIterationsUp,
    /// Lower the iteration budget by one step, if more than one step is left.
    MaxIterationsDown,
    /// Double the precision of the viewport.
    PrecisionUp,
    /// Halve the precision of the viewport.
    PrecisionDown,
    /// Switch to the other algorithm.
    SwitchGenerator,
}

/// The pixel results of a frame: one count per pixel in row-major order.
pub open spec fn frame<T: Approx>(v: Viewport<T>, max_iterations: u32, generator: Generator) -> Seq<
    u32,
> {
    match generator {
        Generator::Direct => Seq::new(
            v.pixel_count(),
            |i: int| direct_count(v, i as nat, max_iterations),
        ),
        Generator::Perturbation => Seq::new(
            v.pixel_count(),
            |i: int| delta_count(v, i as nat, max_iterations) as u32,
        ),
    }
}

/// Evaluates every pixel of the viewport with the chosen algorithm.
pub fn compute<T: Approx + Sync>(
    canvas: CanvasSize<T>,
    max_iterations: u32,
    generator: Generator,
) -> (v: Vec<u32>)
    ensures
        v@ == frame(canvas@, max_iterations, generator),
        forall|i: int| 0 <= i < v@.len() ==> #[trigger] v@[i] <= max_iterations,
{
    match generator {
        Generator::Direct => calculate_all_mpfr(canvas, max_iterations),
        Generator::Perturbation => calculate_all_delta(canvas, max_iterations),
    }
}

/// The settings of a session: all of its state but the image.
pub struct Settings<T> {
    pub canvas: Viewport<T>,
    pub max: u32,
    pub generator: Generator,
}

/// The other algorithm.
pub open spec fn other(generator: Generator) -> Generator {
    match generator {
        Generator::Direct => Generator::Perturbation,
        Generator::Perturbation => Generator::Direct,
    }
}

/// The settings with another viewport, where that viewport is valid; the
/// settings as they are, where it is not.
pub open spec fn with_canvas<T: Scalar>(s: Settings<T>, canvas: Viewport<T>) -> Settings<T> {
    if canvas.valid() {
        Settings { canvas, max: s.max, generator: s.generator }
    } else {
        s
    }
}

/// The settings that an action leads to.
pub open spec fn next_settings<T: Scalar>(s: Settings<T>, action: Action) -> Settings<T> {
    match action {
        Action::ZoomIn(pixel) => {
            let p = s.canvas.coordinates(pixel[0], pixel[1]);
            let moved = s.canvas.recentered(p.0, p.1);
            if moved.valid() {
                with_canvas(s, moved.zoomed(T::from_u32_spec(ZOOM_STEP)))
            } else {
                s
            }
        },
        Action::ZoomOut => with_canvas(
            s,
            s.canvas.zoomed(T::from_u32_spec(1).div_spec(T::from_u32_spec(ZOOM_STEP))),
        ),
        Action::MaxIterationsUp => Settings {
            canvas: s.canvas,
            max: (s.max + BUDGET_STEP) as u32,
            generator: s.generator,
        },
        Action::MaxIterationsDown => if s.max > BUDGET_STEP {
            Settings { canvas: s.canvas, max: (s.max - BUDGET_STEP) as u32, generator: s.generator }
        } else {
            s
        },
        Action::PrecisionUp => match s.canvas.with_prec((s.canvas.top.prec_spec() * 2) as usize) {
            Some(canvas) => with_canvas(s, canvas),
            None => s,
        },
        Action::PrecisionDown => match s.canvas.with_prec(s.canvas.top.prec_spec() / 2) {
            Some(canvas) => with_canvas(s, canvas),
            None => s,
        },
        Action::SwitchGenerator => Settings {
            canvas: s.canvas,
            max: s.max,
            generator: other(s.generator),
        },
    }
}

/// Whether an action can be carried out on these settings: a pixel to zoom
/// in on lies on the grid, and a raised budget or a doubled precision still
/// fits its integer type.
pub open spec fn admits<T: Scalar>(s: Settings<T>, action: Action) -> bool {
    match action {
        Action::ZoomIn(pixel) => s.canvas.on_grid(pixel[0], pixel[1]),
        Action::MaxIterationsUp => s.max + BUDGET_STEP <= u32::MAX,
        Action::PrecisionUp => s.canvas.top.prec_spec() * 2 <= usize::MAX,
        _ => true,
    }
}

/// A session: settings, and the image that shows them.
///
/// The image of every value of this type is the rendering of the frame that
/// the settings describe.
pub struct State<T: Approx + Sync> {
    image: Picture,
    canvas: CanvasSize<T>,
    max: u32,
    generator: Generator,
    gradient: Gradient,
}

impl<T: Approx + Sync> View for State<T> {
    type V = Settings<T>;

    closed spec fn view(&self) -> Settings<T> {
        Settings { canvas: self.canvas@, max: self.max, generator: self.generator }
    }
}

/// Whether `image` is the rendering, through `gradient`, of the frame that
/// the settings describe.
pub open spec fn shows<T: Approx>(image: Picture, s: Settings<T>, gradient: Seq<[u8; 3]>) -> bool {
    &&& image_size(image) == (s.canvas.pixel_width, s.canvas.pixel_height)
    &&& image_pixels(image).dom() == Set::new(|p: (u32, u32)| in_image(image_size(image), p))
    &&& forall|p: (u32, u32)|
        in_image(image_size(image), p) ==> #[trigger] image_pixels(image)[p] == rendered(
            frame(s.canvas, s.max, s.generator),
            s.canvas,
            s.max,
            gradient,
            p,
        )
}

impl<T: Approx + Sync> State<T> {
    #[verifier::type_invariant]
    spec fn inv(self) -> bool {
        &&& 3 * self.canvas@.pixel_count() <= isize::MAX
        &&& shows(self.image, self@, self.gradient@)
    }

    /// The colours the session renders with.
    pub closed spec fn gradient(self) -> Seq<[u8; 3]> {
        self.gradient@
    }

    /// The image of the session.
    pub closed spec fn image(self) -> Picture {
        self.image
    }

    /// Computes the frame that the settings describe and renders it.
    pub fn calc(canvas: CanvasSize<T>, max: u32, gen: Generator, gradient: Gradient) -> (s: State<T>)
        requires
            3 * canvas@.pixel_count() <= isize::MAX,
        ensures
            s@ == (Settings { canvas: canvas@, max, generator: gen }),
            s.gradient() == gradient@,
            shows(s.image(), s@, s.gradient()),
    {
        let v = compute(canvas.clone(), max, gen);
        let imgbuf = make_image(v, canvas.clone(), max, &gradient);
        State { image: imgbuf, canvas, max, generator: gen, gradient }
    }

    /// The session on another viewport of the same grid, where there is one to
    /// go to; the session as it is, where there is none.
    fn with_canvas(self, target: Option<CanvasSize<T>>) -> (s: State<T>)
        requires
            target matches Some(c) ==> c@.valid() && c@.pixel_width == self@.canvas.pixel_width
                && c@.pixel_height == self@.canvas.pixel_height,
        ensures
            s@ == (match target {
                Some(c) => with_canvas(self@, c@),
                None => self@,
            }),
            s.gradient() == self.gradient(),
            shows(s.image(), s@, s.gradient()),
    {
        proof {
            use_type_invariant(&self);
        }
        match target {
            Some(canvas) => State::calc(canvas, self.max, self.generator, self.gradient),
            None => self,
        }
    }

    /// The budget of the session.
    pub fn max(&self) -> (m: u32)
        ensures
            m == self@.max,
    {
        self.max
    }

    /// The algorithm of the session.
    pub fn generator(&self) -> (g: Generator)
        ensures
            g == self@.generator,
    {
        self.generator
    }

    /// The viewport of the session.
    pub fn canvas(&self) -> (c: &CanvasSize<T>)
        ensures
            c@ == self@.canvas,
    {
        &self.canvas
    }
}

impl<T: Approx + Sync> Clone for State<T> {
    fn clone(&self) -> (s: Self)
        ensures
            s@ == self@,
            s.gradient() == self.gradient(),
            image_size(s.image()) == image_size(self.image()),
            image_pixels(s.image()) == image_pixels(self.image()),
    {
        proof {
            use_type_invariant(self);
        }
        State {
            image: self.image.clone(),
            canvas: self.canvas.clone(),
            max: self.max,
            generator: self.generator,
            gradient: self.gradient.clone(),
        }
    }
}

/// Starts a session on a viewport with the direct algorithm.
pub fn init<T: Approx + Sync>(canvas: CanvasSize<T>, max: u32, gradient: Gradient) -> (s: State<T>)
    requires
        3 * canvas@.pixel_count() <= isize::MAX,
    ensures
        s@ == (Settings { canvas: canvas@, max, generator: Generator::Direct }),
        s.gradient() == gradient@,
        shows(s.image(), s@, s.gradient()),
{
    State::calc(canvas, max, Generator::Direct, gradient)
}

/// Carries out an action: the new session has the settings that the action
/// leads to and the image that shows them.
pub fn update<T: Approx + Sync>(current: State<T>, action: Action) -> (next: State<T>)
    requires
        admits(current@, action),
    ensures
        next@ == next_settings(current@, action),
        next.gradient() == current.gradient(),
        shows(next.image(), next@, next.gradient()),
{
    proof {
        use_type_invariant(&current);
    }
    match action {
        Action::ZoomIn(pixel) => {
            let target = match current.canvas.move_center_to_pixel(pixel) {
                Some(moved) => moved.zoom(T::from_u32(ZOOM_STEP)),
                None => None,
            };
            current.with_canvas(target)
        },
        Action::ZoomOut => {
            let target = current.canvas.zoom(T::from_u32(1).div(&T::from_u32(ZOOM_STEP)));
            current.with_canvas(target)
        },
        Action::MaxIterationsUp => State::calc(
            current.canvas,
            current.max + BUDGET_STEP,
            current.generator,
            current.gradient,
        ),
        Action::MaxIterationsDown => {
            if current.max > BUDGET_STEP {
                State::calc(
                    current.canvas,
                    current.max - BUDGET_STEP,
                    current.generator,
                    current.gradient,
                )
            } else {
                current
            }
        },
        Action::PrecisionUp => {
            let target = current.canvas.set_prec(current.canvas.get_prec() * 2);
            current.with_canvas(target)
        },
        Action::PrecisionDown => {
            let target = current.canvas.set_prec(current.canvas.get_prec() / 2);
            current.with_canvas(target)
        },
        Action::SwitchGenerator => {
            let new_gen = match current.generator {
                Generator::Direct => Generator::Perturbation,
                Generator::Perturbation => Generator::Direct,
            };
            State::calc(current.canvas, current.max, new_gen, current.gradient)
        },
    }
}

/// The image of a session.
pub fn view<T: Approx + Sync>(state: State<T>) -> (img: Picture)
    ensures
        img == state.image(),
        shows(img, state@, state.gradient()),
{
    proof {
        use_type_invariant(&state);
    }
    state.image
}

} // verus!
