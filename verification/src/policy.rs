//! The wind policy of an airport: which wind counts, what direction is
//! selected by, and which station's report says so.

use vstd::prelude::*;
use crate::airport::{Airport, AirportView};
use crate::error::{pairing_view, Pairing, SelectionError, SelectionErrorView};
use crate::report::{read_wind, spec_has_open_variation};
use crate::wind::{
    assumed_direction, spec_assumed_direction, WindDirection, WindObservation, WindSpeed,
};

verus! {

/// The wind speed in knots below which the wind does not count, where
/// neither the airport nor the caller names one.
pub const DEFAULT_CALM_WIND: u32 = 5;

/// The wind speed in knots below which an airport with arrival preferences
/// keeps to them, where the caller names none.
pub const DEFAULT_PREFERRED_WIND: u32 = 15;

/// Where the weather reports come from: the address of a station's report
/// is this text followed by the station's identifier.
pub const METAR_SERVICE: &'static str = "https://metar.vatsim.net/metar.php?id=";

impl AirportView {
    /// The calm-wind threshold: the airport's own, else the caller's, else
    /// the default.
    pub open spec fn calm_wind(self, calm_wind_prop: Option<u32>) -> u32 {
        match self.no_factor_wind {
            Some(knots) => knots,
            None => match calm_wind_prop {
                Some(knots) => knots,
                None => DEFAULT_CALM_WIND,
            },
        }
    }

    /// The speed that the wind must reach to decide the selection: the
    /// calm-wind threshold for an airport without arrival preferences, and
    /// for one with them the preferred-wind threshold, the caller's or the
    /// default.
    pub open spec fn min_wind(self, calm_wind_prop: Option<u32>, pref_wind: Option<u32>) -> u32 {
        if self.preferred_arr is None {
            self.calm_wind(calm_wind_prop)
        } else {
            match pref_wind {
                Some(knots) => knots,
                None => DEFAULT_PREFERRED_WIND,
            }
        }
    }

    /// The direction to select by: the assumed one where the wind is
    /// slower than the operative threshold or reports no bearing, else the
    /// reported bearing.
    pub open spec fn working_direction(
        self,
        observation: WindObservation,
        calm_wind_prop: Option<u32>,
        pref_wind: Option<u32>,
        assumed_dir: Option<u32>,
    ) -> u32 {
        let assumed = spec_assumed_direction(assumed_dir);
        if observation.speed.spec_knots() < self.min_wind(calm_wind_prop, pref_wind) {
            assumed
        } else {
            observation.direction.spec_bearing_or(assumed)
        }
    }

    /// The station whose weather report the airport goes by: another one
    /// where it names one, else its own.
    pub open spec fn station(self) -> Seq<char> {
        match self.use_metar_from {
            Some(station) => station,
            None => self.icao,
        }
    }

    /// The runways for an observed wind.
    pub open spec fn selection(
        self,
        observation: WindObservation,
        calm_wind_prop: Option<u32>,
        pref_wind: Option<u32>,
        assumed_dir: Option<u32>,
    ) -> Pairing {
        self.pairing(self.working_direction(observation, calm_wind_prop, pref_wind, assumed_dir))
    }
}

/// A wind slower than the operative threshold selects what the assumed
/// direction selects, whatever direction was observed.
pub proof fn lemma_slow_wind_goes_by_assumed_direction(
    airport: AirportView,
    observation: WindObservation,
    calm_wind_prop: Option<u32>,
    pref_wind: Option<u32>,
    assumed_dir: Option<u32>,
)
    requires
        observation.speed.spec_knots() < airport.min_wind(calm_wind_prop, pref_wind),
    ensures
        airport.working_direction(observation, calm_wind_prop, pref_wind, assumed_dir)
            == spec_assumed_direction(assumed_dir),
        airport.selection(observation, calm_wind_prop, pref_wind, assumed_dir) == airport.pairing(
            spec_assumed_direction(assumed_dir),
        ),
{
}

/// A wind that reaches the operative threshold and has a bearing selects
/// what its bearing selects.
pub proof fn lemma_strong_wind_goes_by_its_bearing(
    airport: AirportView,
    bearing: u32,
    speed: WindSpeed,
    calm_wind_prop: Option<u32>,
    pref_wind: Option<u32>,
    assumed_dir: Option<u32>,
)
    requires
        speed.spec_knots() >= airport.min_wind(calm_wind_prop, pref_wind),
    ensures
        airport.selection(
            WindObservation { direction: WindDirection::Heading(bearing), speed },
            calm_wind_prop,
            pref_wind,
            assumed_dir,
        ) == airport.pairing(bearing),
{
}

impl Airport {
    /// The identifier of the station whose weather report the airport goes
    /// by.
    pub fn metar_station(&self) -> (station: String)
        ensures
            station@ == self@.station(),
    {
        match &self.use_metar_from {
            Some(station) => station.clone(),
            None => self.icao.clone(),
        }
    }

    /// The address at which the airport's weather report is to be had.
    pub fn metar_url(&self) -> (url: String)
        ensures
            url@ == METAR_SERVICE@ + self@.station(),
    {
        let station = self.metar_station();
        String::from_str(METAR_SERVICE).concat(station.as_str())
    }

    /// Selects the departure and the arrival runway from the text of the
    /// airport's weather report.
    ///
    /// The report is decoded by [`read_wind`], and the runways are those
    /// that [`Airport::select_runways`] selects for the wind decoded. A
    /// report that cannot be decoded selects nothing.
    pub fn select_rwy(
        &self,
        report: &str,
        calm_wind_prop: Option<u32>,
        pref_wind: Option<u32>,
        assumed_dir: Option<u32>,
    ) -> (chosen: Result<(String, String), SelectionError>)
        ensures
            spec_has_open_variation(report@) ==> pairing_view(chosen) == Err::<
                (Seq<char>, Seq<char>),
                SelectionErrorView,
            >(SelectionErrorView::WeatherDecode),
            pairing_view(chosen) == Err::<(Seq<char>, Seq<char>), SelectionErrorView>(
                SelectionErrorView::WeatherDecode,
            ) || exists|observation: WindObservation|
                pairing_view(chosen) == #[trigger] self@.selection(
                    observation,
                    calm_wind_prop,
                    pref_wind,
                    assumed_dir,
                ),
    {
        match read_wind(report) {
            Ok(observation) => self.select_runways(
                observation,
                calm_wind_prop,
                pref_wind,
                assumed_dir,
            ),
            Err(e) => Err(e),
        }
    }

    /// Selects the departure and the arrival runway for an observed wind.
    ///
    /// A wind slower than the operative threshold does not count: the
    /// selection then goes by the assumed direction, whatever bearing was
    /// observed.
    pub fn select_runways(
        &self,
        observation: WindObservation,
        calm_wind_prop: Option<u32>,
        pref_wind: Option<u32>,
        assumed_dir: Option<u32>,
    ) -> (chosen: Result<(String, String), SelectionError>)
        ensures
            pairing_view(chosen) == self@.selection(
                observation,
                calm_wind_prop,
                pref_wind,
                assumed_dir,
            ),
            observation.speed.spec_knots() < self@.min_wind(calm_wind_prop, pref_wind)
                ==> pairing_view(chosen) == self@.pairing(spec_assumed_direction(assumed_dir)),
    {
        let calm_wind: u32 = match self.no_factor_wind {
            Some(knots) => knots,
            None => match calm_wind_prop {
                Some(knots) => knots,
                None => DEFAULT_CALM_WIND,
            },
        };
        let pref_calm_wind: u32 = match pref_wind {
            Some(knots) => knots,
            None => DEFAULT_PREFERRED_WIND,
        };
        let assumed: u32 = assumed_direction(assumed_dir);
        let mut direction: u32 = observation.direction.bearing_or(assumed);
        let speed: u64 = observation.speed.knots();
        let min_wind: u32 = if self.preferred_arr.is_none() {
            calm_wind
        } else {
            pref_calm_wind
        };
        if speed < min_wind as u64 {
            direction = assumed;
        }
        let dep = match self.select_dep_rwy(direction) {
            Ok(id) => id,
            Err(e) => return Err(e),
        };
        let arr = match self.select_arr_rwy(direction) {
            Ok(id) => id,
            Err(e) => return Err(e),
        };
        Ok((dep, arr))
    }
}

} // verus!
