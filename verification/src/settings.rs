//! The configuration of a render, and its validation.

use vstd::prelude::*;
use vstd::arithmetic::power2::pow2;
use crate::binary64::Binary64;
use crate::binary64::Number;

verus! {

/// Headroom added to the iteration bound when smooth counts are normalised: room for
/// the unconditional steps after an escape, and a margin.
pub const NORMALIZATION_HEADROOM: u64 = 6;

/// A point of the complex plane.
#[derive(Clone, Copy, Debug, PartialEq, Eq, Structural)]
pub struct PlanePoint {
    pub re: Binary64,
    pub im: Binary64,
}

impl PlanePoint {
    /// Whether both components are finite numbers.
    pub open spec fn spec_is_finite(&self) -> bool {
        self.re@ is Finite && self.im@ is Finite
    }

    /// Whether both components are finite numbers.
    #[verifier::when_used_as_spec(spec_is_finite)]
    pub fn is_finite(&self) -> (r: bool)
        ensures
            r == self.spec_is_finite(),
    {
        self.re.is_finite() && self.im.is_finite()
    }
}

/// The settings of a render as they are handed in, not yet validated.
#[derive(Clone, Copy, Debug, PartialEq, Eq, Structural)]
pub struct Configuration {
    /// The plane point of pixel `(0, 0)`.
    pub top_left: PlanePoint,
    /// The plane point that pixel `(width, height)` would have.
    pub bottom_right: PlanePoint,
    /// Pixels per row.
    pub width: u32,
    /// Rows.
    pub height: u32,
    /// The iteration bound of the escape search.
    pub max_iterations: u32,
    /// The magnitude beyond which a point counts as escaped.
    pub escape_radius: Binary64,
}

/// Why a configuration was rejected.
#[derive(Clone, Copy, Debug, PartialEq, Eq, Structural)]
pub enum ConfigError {
    /// The width or the height is zero.
    EmptyResolution,
    /// The escape radius is not a finite number greater than one, so the smooth
    /// count would be undefined.
    EscapeRadius,
    /// A corner is not finite, or the corners agree in a component.
    DegenerateRegion,
}

impl Configuration {
    /// Both dimensions are positive.
    pub open spec fn resolution_ok(self) -> bool {
        self.width > 0 && self.height > 0
    }

    /// The escape radius is finite and greater than one.
    pub open spec fn radius_ok(self) -> bool {
        self.escape_radius@ matches Number::Finite(scaled) && scaled > pow2(1074)
    }

    /// The corners are finite and differ in both components.
    pub open spec fn region_ok(self) -> bool {
        &&& self.top_left.spec_is_finite()
        &&& self.bottom_right.spec_is_finite()
        &&& self.top_left.re@ != self.bottom_right.re@
        &&& self.top_left.im@ != self.bottom_right.im@
    }

    /// What validation reports: the first fault in the order resolution, escape
    /// radius, region; or none.
    pub open spec fn fault(self) -> Option<ConfigError> {
        if !self.resolution_ok() {
            Some(ConfigError::EmptyResolution)
        } else if !self.radius_ok() {
            Some(ConfigError::EscapeRadius)
        } else if !self.region_ok() {
            Some(ConfigError::DegenerateRegion)
        } else {
            None
        }
    }

    /// Whether a render may start from this configuration.
    pub open spec fn valid(self) -> bool {
        self.resolution_ok() && self.radius_ok() && self.region_ok()
    }

    /// Checks the configuration and reports its first fault.
    pub fn validate(&self) -> (result: Result<(), ConfigError>)
        ensures
            result is Ok <==> self.valid(),
            result matches Err(e) ==> self.fault() == Some(e),
            result is Ok ==> self.fault() is None,
            !self.radius_ok() ==> result is Err,
    {
        if self.width == 0 || self.height == 0 {
            return Err(ConfigError::EmptyResolution);
        }
        let one = Binary64::one();
        if !(self.escape_radius.is_finite() && one.lt(&self.escape_radius)) {
            return Err(ConfigError::EscapeRadius);
        }
        if !self.top_left.is_finite() || !self.bottom_right.is_finite()
            || self.top_left.re.same_value(&self.bottom_right.re)
            || self.top_left.im.same_value(&self.bottom_right.im) {
            return Err(ConfigError::DegenerateRegion);
        }
        Ok(())
    }
}

/// The divisor by which smooth counts are normalised: the iteration bound plus the
/// headroom.
pub open spec fn spec_normalization_bound(max_iterations: u32) -> u64 {
    (max_iterations + NORMALIZATION_HEADROOM) as u64
}

/// The divisor by which smooth counts are normalised: the iteration bound plus the
/// headroom.
#[verifier::when_used_as_spec(spec_normalization_bound)]
pub fn normalization_bound(max_iterations: u32) -> (bound: u64)
    ensures
        bound == spec_normalization_bound(max_iterations),
        bound == max_iterations + 6,
{
    max_iterations as u64 + NORMALIZATION_HEADROOM
}

/// A validated configuration. It is made once and only read afterwards.
#[derive(Clone, Copy, Debug)]
pub struct Settings {
    config: Configuration,
}

impl View for Settings {
    type V = Configuration;

    closed spec fn view(&self) -> Configuration {
        self.config
    }
}

impl Settings {
    #[verifier::type_invariant]
    spec fn well_formed(self) -> bool {
        self.config.valid()
    }

    /// Validates a configuration. A faulty one is rejected with its first fault, and
    /// no render can start from it.
    pub fn new(config: Configuration) -> (result: Result<Settings, ConfigError>)
        ensures
            match result {
                Ok(settings) => config.valid() && settings@ == config,
                Err(e) => config.fault() == Some(e),
            },
            !config.radius_ok() ==> result is Err,
    {
        match config.validate() {
            Ok(()) => Ok(Settings { config }),
            Err(e) => Err(e),
        }
    }

    /// The configuration these settings were made from.
    pub fn configuration(&self) -> (config: Configuration)
        ensures
            config == self@,
            config.valid(),
    {
        proof {
            use_type_invariant(self);
        }
        self.config
    }

    /// Pixels per row; never zero.
    pub fn width(&self) -> (w: u32)
        ensures
            w == self@.width,
            w > 0,
    {
        proof {
            use_type_invariant(self);
        }
        self.config.width
    }

    /// Rows; never zero.
    pub fn height(&self) -> (h: u32)
        ensures
            h == self@.height,
            h > 0,
    {
        proof {
            use_type_invariant(self);
        }
        self.config.height
    }

    /// The iteration bound of the escape search.
    pub fn max_iterations(&self) -> (n: u32)
        ensures
            n == self@.max_iterations,
    {
        self.config.max_iterations
    }

    /// The escape radius; finite and greater than one.
    pub fn escape_radius(&self) -> (r: Binary64)
        ensures
            r == self@.escape_radius,
            self@.radius_ok(),
    {
        proof {
            use_type_invariant(self);
        }
        self.config.escape_radius
    }

    /// The plane point of pixel `(0, 0)`.
    pub fn top_left(&self) -> (p: PlanePoint)
        ensures
            p == self@.top_left,
    {
        self.config.top_left
    }

    /// The plane point that pixel `(width, height)` would have.
    pub fn bottom_right(&self) -> (p: PlanePoint)
        ensures
            p == self@.bottom_right,
    {
        self.config.bottom_right
    }

    /// The divisor by which smooth counts are normalised.
    pub fn normalization_bound(&self) -> (bound: u64)
        ensures
            bound == self@.max_iterations + 6,
    {
        normalization_bound(self.config.max_iterations)
    }
}

} // verus!
