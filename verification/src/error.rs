//! The ways a runway selection can fail.

use vstd::prelude::*;

verus! {

/// Why no runway could be selected.
#[derive(Debug, PartialEq, Eq)]
pub enum SelectionError {
    /// A preference list names a runway that the airport does not have.
    UnknownRunway { icao: String, runway: String },
    /// No runway of a preference list lies within 90 degrees of the wind,
    /// whose direction is given.
    NoSuitableRunway { direction: u32 },
    /// The airport has no runways at all.
    NoRunwaysDefined,
    /// The weather report holds no wind that could be decoded.
    WeatherDecode,
}

/// A [`SelectionError`] as a plain value.
pub enum SelectionErrorView {
    UnknownRunway { icao: Seq<char>, runway: Seq<char> },
    NoSuitableRunway { direction: u32 },
    NoRunwaysDefined,
    WeatherDecode,
}

impl View for SelectionError {
    type V = SelectionErrorView;

    open spec fn view(&self) -> SelectionErrorView {
        match self {
            SelectionError::UnknownRunway { icao, runway } => SelectionErrorView::UnknownRunway {
                icao: icao@,
                runway: runway@,
            },
            SelectionError::NoSuitableRunway { direction } => SelectionErrorView::NoSuitableRunway {
                direction: *direction,
            },
            SelectionError::NoRunwaysDefined => SelectionErrorView::NoRunwaysDefined,
            SelectionError::WeatherDecode => SelectionErrorView::WeatherDecode,
        }
    }
}

/// The outcome of selecting one runway: its designator, or the failure.
pub type Choice = Result<Seq<char>, SelectionErrorView>;

/// The outcome of selecting for an airport: the departure and the arrival
/// runway, or the first failure.
pub type Pairing = Result<(Seq<char>, Seq<char>), SelectionErrorView>;

/// What an executable single-runway result stands for.
pub open spec fn choice_view(chosen: Result<String, SelectionError>) -> Choice {
    match chosen {
        Ok(id) => Ok(id@),
        Err(e) => Err(e@),
    }
}

/// What an executable departure-and-arrival result stands for.
pub open spec fn pairing_view(chosen: Result<(String, String), SelectionError>) -> Pairing {
    match chosen {
        Ok((dep, arr)) => Ok((dep@, arr@)),
        Err(e) => Err(e@),
    }
}

} // verus!
