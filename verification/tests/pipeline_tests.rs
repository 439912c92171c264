use mandelbrot::binary64::Binary64;
use mandelbrot::color::PixelColor;
use mandelbrot::escape::Directive;
use mandelbrot::escape::EscapeRun;
use mandelbrot::escape::SmoothResult;
use mandelbrot::grid::pixel_coordinates;
use mandelbrot::grid::pixel_count;
use mandelbrot::imaging::to_image;
use mandelbrot::render::process;
use mandelbrot::render::render;
use mandelbrot::render::RenderError;
use mandelbrot::settings::ConfigError;
use mandelbrot::settings::Configuration;
use mandelbrot::settings::PlanePoint;
use mandelbrot::settings::Settings;
use num::complex::Complex;

fn b(x: f64) -> Binary64 {
    Binary64::from_bits(x.to_bits())
}

fn f(x: Binary64) -> f64 {
    f64::from_bits(x.to_bits())
}

fn configuration(width: u32, height: u32, max_iterations: u32, escape_radius: f64) -> Configuration {
    Configuration {
        top_left: PlanePoint { re: b(-2.0), im: b(-2.0) },
        bottom_right: PlanePoint { re: b(1.0), im: b(2.0) },
        width,
        height,
        max_iterations,
        escape_radius: b(escape_radius),
    }
}

/// The plane point of a pixel, by linear interpolation between the corners.
fn convert(settings: &Settings, x: u32, y: u32) -> Complex<f64> {
    let top_left = settings.top_left();
    let bottom_right = settings.bottom_right();
    let fx = x as f64 / settings.width() as f64;
    let fy = y as f64 / settings.height() as f64;
    Complex::new(
        fx * (f(bottom_right.re) - f(top_left.re)) + f(top_left.re),
        fy * (f(bottom_right.im) - f(top_left.im)) + f(top_left.im),
    )
}

/// Evaluates one point: the arithmetic is done here, the decisions by the library.
fn evaluate(c: Complex<f64>, max_iterations: u32, escape_radius: f64) -> SmoothResult {
    let mut z = c;
    let mut run = EscapeRun::start(max_iterations);
    loop {
        match run.directive() {
            Directive::Iterate => {
                z = z * z + c;
                run.observe_magnitude(b(z.norm_sqr()), b(escape_radius * escape_radius));
            }
            Directive::Interior => return SmoothResult::Interior,
            Directive::Escaped { iterations } => {
                let modulus = z.norm_sqr().sqrt();
                let mu = 1.0 + iterations as f64 - modulus.log10().log10() / 2.0_f64.log10();
                return SmoothResult::Escaped(b(mu));
            }
        }
    }
}

fn evaluate_grid(settings: &Settings) -> Vec<SmoothResult> {
    let radius = f(settings.escape_radius());
    let count = pixel_count(settings.width(), settings.height());
    (0..count)
        .map(|index| {
            let (x, y) = pixel_coordinates(settings.width(), settings.height(), index).unwrap();
            evaluate(convert(settings, x, y), settings.max_iterations(), radius)
        })
        .collect()
}

#[test]
fn origin_is_interior_and_black() {
    for max_iterations in [2u32, 18, 100, 1000] {
        for radius in [1.5, 2.0, 3.0, 100.0] {
            let result = evaluate(Complex::new(0.0, 0.0), max_iterations, radius);
            assert_eq!(result, SmoothResult::Interior);
            assert_eq!(process(result, max_iterations), Ok(PixelColor { red: 0, green: 0, blue: 0 }));
        }
    }
}

#[test]
fn far_point_escapes_at_once() {
    let c = Complex::new(5.0, 5.0);
    let mut run = EscapeRun::start(18);
    let z = c * c + c;
    assert!(z.norm_sqr() > 9.0);
    run.observe(true);
    run.observe(false);
    run.observe(false);
    assert_eq!(run.directive(), Directive::Escaped { iterations: 3 });

    let result = evaluate(c, 18, 3.0);
    let mu = match result {
        SmoothResult::Escaped(mu) => f(mu),
        SmoothResult::Interior => panic!("the point did not escape"),
    };
    assert!(mu > 0.0 && mu < 2.0, "mu = {mu}");
    assert!((mu - 1.199367838758433).abs() < 1e-9, "mu = {mu}");
    let color = process(result, 18).unwrap();
    assert_eq!(color, PixelColor { red: 13, green: 13, blue: 13 });
    assert!(color.red > 0 && color.red < 64);
}

#[test]
fn four_by_four_scenario() {
    let settings = Settings::new(configuration(4, 4, 18, 3.0)).unwrap();
    let samples = evaluate_grid(&settings);
    let buffer = render(&settings, &samples).ok().unwrap();
    assert_eq!(buffer.len(), 16);
    assert_eq!(buffer.width(), 4);
    assert_eq!(buffer.height(), 4);
    assert_eq!(buffer.pixels().len(), 16);
    for color in buffer.pixels() {
        assert_eq!(color.red, color.green);
        assert_eq!(color.green, color.blue);
    }
    // The pixel nearest the origin is (3, 2), at 0.25 + 0i.
    assert_eq!(convert(&settings, 3, 2), Complex::new(0.25, 0.0));
    assert_eq!(buffer.pixel(3, 2), Some(PixelColor { red: 0, green: 0, blue: 0 }));
    let levels: Vec<u8> = buffer.pixels().iter().map(|color| color.red).collect();
    assert_eq!(
        levels,
        vec![24, 27, 28, 28, 31, 39, 53, 49, 0, 0, 0, 0, 31, 39, 53, 49]
    );
}

#[test]
fn render_is_deterministic() {
    let settings = Settings::new(configuration(16, 12, 40, 2.5)).unwrap();
    let first = render(&settings, &evaluate_grid(&settings)).ok().unwrap();
    let second = render(&settings, &evaluate_grid(&settings)).ok().unwrap();
    assert_eq!(first.pixels(), second.pixels());
    assert_eq!(first.width(), second.width());
    assert_eq!(first.height(), second.height());
    let a = to_image(&first).unwrap().into_raw();
    let c = to_image(&second).unwrap().into_raw();
    assert_eq!(a, c);
    assert_eq!(a.len(), 16 * 12 * 3);
}

#[test]
fn radius_of_one_never_reaches_evaluation() {
    assert_eq!(
        Settings::new(configuration(4, 4, 18, 1.0)).err(),
        Some(ConfigError::EscapeRadius)
    );
    // What validation keeps away: with a radius of one half the smooth count of an
    // escaping point is no number, and the render would fail as a whole.
    let result = evaluate(Complex::new(0.3, 0.0), 18, 0.5);
    match result {
        SmoothResult::Escaped(mu) => assert!(f(mu).is_nan()),
        SmoothResult::Interior => panic!("the point did not escape"),
    }
    assert_eq!(process(result, 18), Err(RenderError::NumericFault));
}

#[test]
fn all_channels_are_equal_on_a_larger_grid() {
    let settings = Settings::new(configuration(40, 30, 25, 3.0)).unwrap();
    let buffer = render(&settings, &evaluate_grid(&settings)).ok().unwrap();
    assert_eq!(buffer.len(), 1200);
    let mut black = 0;
    let mut bright = 0;
    for y in 0..30 {
        for x in 0..40 {
            let color = buffer.pixel(x, y).unwrap();
            assert!(color.red == color.green && color.green == color.blue);
            if color.red == 0 {
                black += 1;
            } else {
                bright += 1;
            }
        }
    }
    assert!(black > 0 && bright > 0);
    assert_eq!(buffer.pixel(40, 0), None);
    assert_eq!(buffer.pixel(0, 30), None);
}
