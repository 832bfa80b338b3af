//! Wind as a weather report states it, and as runway selection reads it.

use vstd::prelude::*;
use crate::error::{SelectionError, SelectionErrorView};

verus! {

/// The direction assumed where none is given and the wind is calm, variable
/// or beyond what the report can state.
pub const DEFAULT_ASSUMED_DIRECTION: u32 = 270;

/// The direction the wind blows from.
#[derive(Clone, Copy, Debug, PartialEq, Eq)]
pub enum WindDirection {
    /// A bearing in degrees.
    Heading(u32),
    /// The direction varies.
    Variable,
    /// The wind is stronger than the report can state, and no direction is
    /// to be had from it.
    Above,
}

/// The speed of the wind, in the unit of the report.
#[derive(Clone, Copy, Debug, PartialEq, Eq)]
pub enum WindSpeed {
    /// No wind.
    Calm,
    /// Nautical miles per hour.
    Knot(u32),
    /// Metres per second.
    MetresPerSecond(u32),
    /// Kilometres per hour.
    KilometresPerHour(u32),
}

/// The wind at an airport: where it blows from, and how fast.
#[derive(Clone, Copy, Debug, PartialEq, Eq)]
pub struct WindObservation {
    pub direction: WindDirection,
    pub speed: WindSpeed,
}

/// The wind group of a weather report. A report may leave out the
/// direction, the speed or both.
#[derive(Clone, Copy, Debug, PartialEq, Eq)]
pub struct WindReport {
    pub direction: Option<WindDirection>,
    pub speed: Option<WindSpeed>,
}

/// What an executable decoding result stands for.
pub open spec fn observation_view(
    decoded: Result<WindObservation, SelectionError>,
) -> Result<WindObservation, SelectionErrorView> {
    match decoded {
        Ok(observation) => Ok(observation),
        Err(e) => Err(e@),
    }
}

impl WindDirection {
    /// The bearing to select by: the reported one, or `assumed` where the
    /// report gives none.
    pub open spec fn spec_bearing_or(self, assumed: u32) -> u32 {
        match self {
            WindDirection::Heading(bearing) => bearing,
            WindDirection::Variable => assumed,
            WindDirection::Above => assumed,
        }
    }

    /// The bearing to select by: the reported one, or `assumed`.
    #[verifier::when_used_as_spec(spec_bearing_or)]
    pub fn bearing_or(self, assumed: u32) -> (bearing: u32)
        ensures
            bearing == self.spec_bearing_or(assumed),
    {
        match self {
            WindDirection::Heading(bearing) => bearing,
            WindDirection::Variable => assumed,
            WindDirection::Above => assumed,
        }
    }
}

impl WindSpeed {
    /// The speed in knots, by the rules of thumb of the trade: a metre per
    /// second counts as two knots, and two kilometres per hour as one.
    pub open spec fn spec_knots(self) -> nat {
        match self {
            WindSpeed::Calm => 0,
            WindSpeed::Knot(s) => s as nat,
            WindSpeed::MetresPerSecond(s) => (s * 2) as nat,
            WindSpeed::KilometresPerHour(s) => (s / 2) as nat,
        }
    }

    /// The speed in knots. No speed is too great to be converted.
    pub fn knots(self) -> (knots: u64)
        ensures
            knots == self.spec_knots(),
    {
        match self {
            WindSpeed::Calm => 0,
            WindSpeed::Knot(s) => s as u64,
            WindSpeed::MetresPerSecond(s) => (s as u64) * 2,
            WindSpeed::KilometresPerHour(s) => (s / 2) as u64,
        }
    }
}

impl WindReport {
    /// The observation that the report amounts to: it takes both a
    /// direction and a speed.
    pub open spec fn spec_observation(self) -> Result<WindObservation, SelectionErrorView> {
        match (self.direction, self.speed) {
            (Some(direction), Some(speed)) => Ok(WindObservation { direction, speed }),
            _ => Err(SelectionErrorView::WeatherDecode),
        }
    }

    /// The observation that the report amounts to, or `WeatherDecode` where
    /// it leaves out the direction or the speed.
    pub fn observation(self) -> (decoded: Result<WindObservation, SelectionError>)
        ensures
            observation_view(decoded) == self.spec_observation(),
    {
        match (self.direction, self.speed) {
            (Some(direction), Some(speed)) => Ok(WindObservation { direction, speed }),
            _ => Err(SelectionError::WeatherDecode),
        }
    }
}

/// The direction to assume: the one supplied, or west.
pub open spec fn spec_assumed_direction(assumed_dir: Option<u32>) -> u32 {
    match assumed_dir {
        Some(direction) => direction,
        None => DEFAULT_ASSUMED_DIRECTION,
    }
}

/// The direction to assume: the one supplied, or west.
#[verifier::when_used_as_spec(spec_assumed_direction)]
pub fn assumed_direction(assumed_dir: Option<u32>) -> (direction: u32)
    ensures
        direction == spec_assumed_direction(assumed_dir),
{
    match assumed_dir {
        Some(direction) => direction,
        None => DEFAULT_ASSUMED_DIRECTION,
    }
}

} // verus!
