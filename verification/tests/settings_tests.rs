use mandelbrot::binary64::Binary64;
use mandelbrot::settings::normalization_bound;
use mandelbrot::settings::ConfigError;
use mandelbrot::settings::Configuration;
use mandelbrot::settings::PlanePoint;
use mandelbrot::settings::Settings;

fn b(x: f64) -> Binary64 {
    Binary64::from_bits(x.to_bits())
}

fn point(re: f64, im: f64) -> PlanePoint {
    PlanePoint { re: b(re), im: b(im) }
}

fn standard() -> Configuration {
    Configuration {
        top_left: point(-2.0, -2.0),
        bottom_right: point(1.0, 2.0),
        width: 4,
        height: 4,
        max_iterations: 18,
        escape_radius: b(3.0),
    }
}

#[test]
fn standard_configuration_is_accepted() {
    let config = standard();
    assert_eq!(config.validate(), Ok(()));
    let settings = Settings::new(config).unwrap();
    assert_eq!(settings.configuration(), config);
    assert_eq!(settings.width(), 4);
    assert_eq!(settings.height(), 4);
    assert_eq!(settings.max_iterations(), 18);
    assert_eq!(settings.escape_radius(), b(3.0));
    assert_eq!(settings.top_left(), point(-2.0, -2.0));
    assert_eq!(settings.bottom_right(), point(1.0, 2.0));
    assert_eq!(settings.normalization_bound(), 24);
}

#[test]
fn escape_radius_of_one_is_rejected() {
    let config = Configuration { escape_radius: b(1.0), ..standard() };
    assert_eq!(config.validate(), Err(ConfigError::EscapeRadius));
    assert_eq!(Settings::new(config).err(), Some(ConfigError::EscapeRadius));
}

#[test]
fn escape_radius_below_one_is_rejected() {
    for radius in [0.999999, 0.5, 5e-324, 0.0, -0.0, -1.0, -3.0, f64::NEG_INFINITY] {
        let config = Configuration { escape_radius: b(radius), ..standard() };
        assert_eq!(Settings::new(config).err(), Some(ConfigError::EscapeRadius), "{radius}");
    }
}

#[test]
fn escape_radius_that_is_no_number_is_rejected() {
    for radius in [f64::NAN, f64::INFINITY] {
        let config = Configuration { escape_radius: b(radius), ..standard() };
        assert_eq!(Settings::new(config).err(), Some(ConfigError::EscapeRadius), "{radius}");
    }
}

#[test]
fn escape_radius_just_above_one_is_accepted() {
    for radius in [1.0 + f64::EPSILON, 1.5, 2.0, 1e300, f64::MAX] {
        let config = Configuration { escape_radius: b(radius), ..standard() };
        assert!(Settings::new(config).is_ok(), "{radius}");
    }
}

#[test]
fn empty_resolution_is_rejected() {
    for (width, height) in [(0u32, 4u32), (4, 0), (0, 0)] {
        let config = Configuration { width, height, ..standard() };
        assert_eq!(Settings::new(config).err(), Some(ConfigError::EmptyResolution));
    }
}

#[test]
fn degenerate_region_is_rejected() {
    let same_re = Configuration { bottom_right: point(-2.0, 2.0), ..standard() };
    assert_eq!(Settings::new(same_re).err(), Some(ConfigError::DegenerateRegion));
    let same_im = Configuration { bottom_right: point(1.0, -2.0), ..standard() };
    assert_eq!(Settings::new(same_im).err(), Some(ConfigError::DegenerateRegion));
    let zeros = Configuration {
        top_left: point(0.0, -1.0),
        bottom_right: point(-0.0, 1.0),
        ..standard()
    };
    assert_eq!(Settings::new(zeros).err(), Some(ConfigError::DegenerateRegion));
}

#[test]
fn corner_that_is_not_finite_is_rejected() {
    for bad in [f64::NAN, f64::INFINITY, f64::NEG_INFINITY] {
        let a = Configuration { top_left: point(bad, -2.0), ..standard() };
        assert_eq!(Settings::new(a).err(), Some(ConfigError::DegenerateRegion));
        let d = Configuration { bottom_right: point(1.0, bad), ..standard() };
        assert_eq!(Settings::new(d).err(), Some(ConfigError::DegenerateRegion));
    }
}

#[test]
fn mirrored_region_is_accepted() {
    let config = Configuration {
        top_left: point(1.0, 2.0),
        bottom_right: point(-2.0, -2.0),
        ..standard()
    };
    assert!(Settings::new(config).is_ok());
}

#[test]
fn faults_are_reported_in_order() {
    let all_wrong = Configuration {
        top_left: point(0.0, 0.0),
        bottom_right: point(0.0, 0.0),
        width: 0,
        height: 0,
        max_iterations: 0,
        escape_radius: b(0.5),
    };
    assert_eq!(Settings::new(all_wrong).err(), Some(ConfigError::EmptyResolution));
    let sized = Configuration { width: 1, height: 1, ..all_wrong };
    assert_eq!(Settings::new(sized).err(), Some(ConfigError::EscapeRadius));
    let with_radius = Configuration { escape_radius: b(2.0), ..sized };
    assert_eq!(Settings::new(with_radius).err(), Some(ConfigError::DegenerateRegion));
}

#[test]
fn normalization_bound_adds_six() {
    assert_eq!(normalization_bound(0), 6);
    assert_eq!(normalization_bound(18), 24);
    assert_eq!(normalization_bound(u32::MAX), 4294967301);
}

#[test]
fn plane_point_finiteness() {
    assert!(point(0.0, -1e300).is_finite());
    assert!(!point(f64::NAN, 0.0).is_finite());
    assert!(!point(0.0, f64::INFINITY).is_finite());
}
