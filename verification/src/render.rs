//! Assembling the output buffer from the evaluated points.
//!
//! The points of the grid are evaluated independently of each other, in any order.
//! Their results are handed over as one sequence, the result of pixel `(x, y)` at
//! index `y * width + x`, and the buffer holds the colour of each at the same index.
//! A single smooth count that is not finite fails the whole render: it stems from
//! the configuration, which all pixels share.

use vstd::prelude::*;
use crate::color::PixelColor;
use crate::color::color_of;
use crate::color::colorize;
use crate::escape::SmoothResult;
use crate::grid::index_of;
use crate::grid::pixel_count;
use crate::grid::pixel_index;
use crate::settings::Configuration;
use crate::settings::Settings;
use crate::settings::normalization_bound;
use crate::settings::spec_normalization_bound;

verus! {

/// Why a render failed. No partial buffer is handed out.
#[derive(Clone, Copy, Debug, PartialEq, Eq, Structural)]
pub enum RenderError {
    /// The number of evaluated points differs from the number of pixels.
    SampleCount,
    /// A smooth count is not a finite number.
    NumericFault,
}

/// Whether an evaluated point carries a smooth count that is not finite.
pub open spec fn is_fault(sample: SmoothResult) -> bool {
    sample matches SmoothResult::Escaped(mu) && !(mu@ is Finite)
}

/// What one evaluated point contributes: its colour, or the numeric fault.
pub open spec fn process_of(sample: SmoothResult, max_iterations: u32) -> Result<
    PixelColor,
    RenderError,
> {
    if is_fault(sample) {
        Err(RenderError::NumericFault)
    } else {
        Ok(color_of(sample, spec_normalization_bound(max_iterations) as int))
    }
}

/// Turns one evaluated point into its colour: black for an interior point, the gray
/// of its smooth count for an escaped one, normalised by the iteration bound plus
/// the headroom. A smooth count that is not finite is a numeric fault.
pub fn process(sample: SmoothResult, max_iterations: u32) -> (result: Result<
    PixelColor,
    RenderError,
>)
    ensures
        result == process_of(sample, max_iterations),
{
    match sample {
        SmoothResult::Interior => Ok(colorize(sample, normalization_bound(max_iterations))),
        SmoothResult::Escaped(mu) => {
            if mu.is_finite() {
                Ok(colorize(sample, normalization_bound(max_iterations)))
            } else {
                Err(RenderError::NumericFault)
            }
        },
    }
}

/// The mathematical content of an output buffer: its dimensions and its pixels, row
/// by row.
pub struct BufferView {
    pub width: nat,
    pub height: nat,
    pub pixels: Seq<PixelColor>,
}

impl BufferView {
    /// The colour of the pixel `(x, y)`.
    pub open spec fn pixel(self, x: u32, y: u32) -> PixelColor {
        self.pixels[y * self.width + x]
    }
}

/// The result of a render, as a function of the configuration and the evaluated
/// points alone.
pub open spec fn render_of(config: Configuration, samples: Seq<SmoothResult>) -> Result<
    BufferView,
    RenderError,
> {
    if samples.len() != config.width * config.height {
        Err(RenderError::SampleCount)
    } else if exists|i: int| 0 <= i < samples.len() && is_fault(#[trigger] samples[i]) {
        Err(RenderError::NumericFault)
    } else {
        Ok(
            BufferView {
                width: config.width as nat,
                height: config.height as nat,
                pixels: Seq::new(
                    samples.len(),
                    |i: int|
                        color_of(samples[i], spec_normalization_bound(config.max_iterations) as int),
                ),
            },
        )
    }
}

/// A grid of colours with the dimensions of the configured resolution, neither of
/// them zero.
#[derive(Debug)]
pub struct OutputBuffer {
    width: u32,
    height: u32,
    pixels: Vec<PixelColor>,
}

impl View for OutputBuffer {
    type V = BufferView;

    closed spec fn view(&self) -> BufferView {
        BufferView {
            width: self.width as nat,
            height: self.height as nat,
            pixels: self.pixels@,
        }
    }
}

impl OutputBuffer {
    #[verifier::type_invariant]
    spec fn well_formed(self) -> bool {
        &&& self.width > 0
        &&& self.height > 0
        &&& self.pixels.len() == self.width * self.height
    }

    /// Pixels per row; never zero.
    pub fn width(&self) -> (w: u32)
        ensures
            w == self@.width,
            w > 0,
    {
        proof {
            use_type_invariant(self);
        }
        self.width
    }

    /// Rows; never zero.
    pub fn height(&self) -> (h: u32)
        ensures
            h == self@.height,
            h > 0,
    {
        proof {
            use_type_invariant(self);
        }
        self.height
    }

    /// The number of pixels: width times height.
    pub fn len(&self) -> (n: usize)
        ensures
            n == self@.pixels.len(),
            n == self@.width * self@.height,
    {
        proof {
            use_type_invariant(self);
        }
        self.pixels.len()
    }

    /// The colour of the pixel `(x, y)`, or `None` for coordinates outside the grid.
    pub fn pixel(&self, x: u32, y: u32) -> (color: Option<PixelColor>)
        ensures
            color is Some <==> x < self@.width && y < self@.height,
            color matches Some(c) ==> c == self@.pixel(x, y),
    {
        proof {
            use_type_invariant(self);
        }
        match pixel_index(self.width, self.height, x, y) {
            Some(index) => Some(self.pixels[index as usize]),
            None => None,
        }
    }

    /// All pixels, row by row.
    pub fn pixels(&self) -> (all: &Vec<PixelColor>)
        ensures
            all@ == self@.pixels,
            all@.len() == self@.width * self@.height,
    {
        proof {
            use_type_invariant(self);
        }
        &self.pixels
    }
}

/// Builds the output buffer for `settings` from the evaluated points of its grid.
///
/// Succeeds exactly when there is one point per pixel and every smooth count is
/// finite; the pixel at each index then has the colour of the point at that index.
pub fn render(settings: &Settings, samples: &Vec<SmoothResult>) -> (result: Result<
    OutputBuffer,
    RenderError,
>)
    ensures
        match result {
            Ok(buffer) => render_of(settings@, samples@) == Ok::<BufferView, RenderError>(
                buffer@,
            ),
            Err(e) => render_of(settings@, samples@) == Err::<BufferView, RenderError>(e),
        },
{
    let width: u32 = settings.width();
    let height: u32 = settings.height();
    let max_iterations: u32 = settings.max_iterations();
    if samples.len() as u64 != pixel_count(width, height) {
        return Err(RenderError::SampleCount);
    }
    let mut pixels: Vec<PixelColor> = Vec::with_capacity(samples.len());
    let mut i: usize = 0;
    while i < samples.len()
        invariant
            i <= samples.len(),
            samples.len() == width * height,
            width == settings@.width,
            height == settings@.height,
            max_iterations == settings@.max_iterations,
            pixels.len() == i,
            forall|j: int| 0 <= j < i ==> !is_fault(#[trigger] samples[j]),
            forall|j: int|
                0 <= j < i ==> #[trigger] pixels[j] == color_of(
                    samples[j],
                    spec_normalization_bound(max_iterations) as int,
                ),
        decreases samples.len() - i,
    {
        match process(samples[i], max_iterations) {
            Ok(color) => {
                pixels.push(color);
            },
            Err(e) => {
                assert(is_fault(samples@[i as int]));
                return Err(e);
            },
        }
        i += 1;
    }
    assert(pixels@ =~= Seq::new(
        samples@.len(),
        |k: int| color_of(samples@[k], spec_normalization_bound(max_iterations) as int),
    ));
    Ok(OutputBuffer { width, height, pixels })
}

/// Rendering is a function of its inputs: two renders of the same settings and the
/// same evaluated points agree in every pixel, and fail alike.
pub proof fn lemma_render_deterministic(
    config: Configuration,
    samples: Seq<SmoothResult>,
    first: Result<BufferView, RenderError>,
    second: Result<BufferView, RenderError>,
)
    requires
        first == render_of(config, samples),
        second == render_of(config, samples),
    ensures
        first == second,
{
}

/// A successful render has one pixel per cell of the grid; the pixel `(x, y)` is
/// the colour of the point evaluated for `(x, y)`, with three equal channels in
/// `0..=255`, and black for an interior point.
pub proof fn lemma_render_pixels(
    config: Configuration,
    samples: Seq<SmoothResult>,
    x: u32,
    y: u32,
)
    requires
        render_of(config, samples) is Ok,
        x < config.width,
        y < config.height,
    ensures
        ({
            let buffer = render_of(config, samples)->Ok_0;
            let sample = samples[index_of(config.width, x, y)];
            &&& buffer.pixels.len() == config.width * config.height
            &&& buffer.pixel(x, y) == color_of(
                sample,
                spec_normalization_bound(config.max_iterations) as int,
            )
            &&& buffer.pixel(x, y).is_gray()
            &&& 0 <= buffer.pixel(x, y).red <= 255
            &&& 0 <= buffer.pixel(x, y).green <= 255
            &&& 0 <= buffer.pixel(x, y).blue <= 255
            &&& sample is Interior ==> buffer.pixel(x, y) == PixelColor::spec_black()
        }),
{
    crate::grid::lemma_index_in_range(config.width, config.height, x, y);
}

} // verus!
