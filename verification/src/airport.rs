//! An airport, and the selection of its runways for a wind direction.

use vstd::prelude::*;
use crate::error::{choice_view, Choice, Pairing, SelectionError, SelectionErrorView};
use crate::geometry::{Runway, RunwayView};
use crate::selection::{
    closest, closest_choice, favours, first_settling, is_closest, is_first_named,
    is_first_settling, lemma_closest_unique, lemma_first_settling_unique,
    lemma_resolving_preferences, names_runway, preferred_choice, settles, PREFERENCE_LIMIT,
};

verus! {

/// An airport as a plain value.
pub struct AirportView {
    pub icao: Seq<char>,
    pub runways: Seq<RunwayView>,
    pub use_metar_from: Option<Seq<char>>,
    pub preferred_dep: Option<Seq<Seq<char>>>,
    pub preferred_arr: Option<Seq<Seq<char>>>,
    pub no_factor_wind: Option<u32>,
}

/// An airport: its runways, whose weather report it goes by, which runways
/// it prefers, and below which wind speed the wind does not count.
#[derive(Debug)]
pub struct Airport {
    pub icao: String,
    pub runways: Vec<Runway>,
    pub use_metar_from: Option<String>,
    pub preferred_dep: Option<Vec<String>>,
    pub preferred_arr: Option<Vec<String>>,
    pub no_factor_wind: Option<u32>,
}

impl View for Airport {
    type V = AirportView;

    open spec fn view(&self) -> AirportView {
        AirportView {
            icao: self.icao@,
            runways: self.runways.deep_view(),
            use_metar_from: self.use_metar_from.deep_view(),
            preferred_dep: self.preferred_dep.deep_view(),
            preferred_arr: self.preferred_arr.deep_view(),
            no_factor_wind: self.no_factor_wind,
        }
    }
}

impl AirportView {
    /// Selection over one role's preference list where there is one, and
    /// over all runways where there is none.
    pub open spec fn choice(self, prefs: Option<Seq<Seq<char>>>, direction: u32) -> Choice {
        match prefs {
            Some(list) => preferred_choice(self.icao, self.runways, list, direction),
            None => closest_choice(self.runways, direction as int),
        }
    }

    /// The departure runway for wind from `direction`.
    pub open spec fn departure(self, direction: u32) -> Choice {
        self.choice(self.preferred_dep, direction)
    }

    /// The arrival runway for wind from `direction`.
    pub open spec fn arrival(self, direction: u32) -> Choice {
        self.choice(self.preferred_arr, direction)
    }

    /// Both runways for wind from `direction`. A failure for departures
    /// comes before one for arrivals.
    pub open spec fn pairing(self, direction: u32) -> Pairing {
        match self.departure(direction) {
            Err(e) => Err(e),
            Ok(dep) => match self.arrival(direction) {
                Err(e) => Err(e),
                Ok(arr) => Ok((dep, arr)),
            },
        }
    }

    /// Every runway that the airport prefers is one of its runways.
    pub open spec fn preferences_resolve(self) -> bool {
        &&& self.preferred_dep matches Some(list) ==> forall|j: int|
            0 <= j < list.len() ==> names_runway(self.runways, #[trigger] list[j])
        &&& self.preferred_arr matches Some(list) ==> forall|j: int|
            0 <= j < list.len() ==> names_runway(self.runways, #[trigger] list[j])
    }
}

/// An airport whose preferences all name runways of its own never fails for
/// an unknown runway.
pub proof fn lemma_resolving_airport(airport: AirportView, direction: u32)
    requires
        airport.preferences_resolve(),
    ensures
        !(airport.departure(direction) matches Err(SelectionErrorView::UnknownRunway { .. })),
        !(airport.arrival(direction) matches Err(SelectionErrorView::UnknownRunway { .. })),
        !(airport.pairing(direction) matches Err(SelectionErrorView::UnknownRunway { .. })),
{
    if let Some(list) = airport.preferred_dep {
        lemma_resolving_preferences(airport.icao, airport.runways, list, direction);
    }
    if let Some(list) = airport.preferred_arr {
        lemma_resolving_preferences(airport.icao, airport.runways, list, direction);
    }
}

impl Airport {
    /// An airport with these runways and settings.
    pub fn new(
        icao: String,
        runways: Vec<Runway>,
        use_metar_from: Option<String>,
        preferred_dep: Option<Vec<String>>,
        preferred_arr: Option<Vec<String>>,
        no_factor_wind: Option<u32>,
    ) -> (airport: Airport)
        ensures
            airport == (Airport {
                icao,
                runways,
                use_metar_from,
                preferred_dep,
                preferred_arr,
                no_factor_wind,
            }),
    {
        Airport { icao, runways, use_metar_from, preferred_dep, preferred_arr, no_factor_wind }
    }

    /// Looks a runway up by its designator: the first of the airport's
    /// runways that carries it.
    pub fn get_runway_heading(&self, id: String) -> (found: Result<&Runway, SelectionError>)
        ensures
            match found {
                Ok(runway) => exists|i: int|
                    is_first_named(self@.runways, id@, i)
                        && (#[trigger] self@.runways[i]) == runway@,
                Err(e) => !names_runway(self@.runways, id@)
                    && e@ == (SelectionErrorView::UnknownRunway {
                    icao: self@.icao,
                    runway: id@,
                }),
            },
    {
        let n: usize = self.runways.len();
        let mut i: usize = 0;
        while i < n
            invariant
                n == self.runways.len(),
                i <= n,
                forall|j: int| 0 <= j < i ==> (#[trigger] self@.runways[j]).id != id@,
            decreases n - i,
        {
            if self.runways[i].id == id {
                assert(is_first_named(self@.runways, id@, i as int));
                return Ok(&self.runways[i]);
            }
            i += 1;
        }
        Err(SelectionError::UnknownRunway { icao: self.icao.clone(), runway: id })
    }

    /// The departure runway for wind from `wind_dir`: by the departure
    /// preferences where the airport has them, else the runway nearest the
    /// wind.
    pub fn select_dep_rwy(&self, wind_dir: u32) -> (chosen: Result<String, SelectionError>)
        ensures
            choice_view(chosen) == self@.departure(wind_dir),
    {
        match &self.preferred_dep {
            Some(dep_prefs) => self.select_preferred_rwy(wind_dir, dep_prefs),
            None => self.select_any_rwy(wind_dir, &self.runways),
        }
    }

    /// The arrival runway for wind from `wind_dir`: by the arrival
    /// preferences where the airport has them, else the runway nearest the
    /// wind.
    pub fn select_arr_rwy(&self, wind_dir: u32) -> (chosen: Result<String, SelectionError>)
        ensures
            choice_view(chosen) == self@.arrival(wind_dir),
    {
        match &self.preferred_arr {
            Some(arr_prefs) => self.select_preferred_rwy(wind_dir, arr_prefs),
            None => self.select_any_rwy(wind_dir, &self.runways),
        }
    }

    /// Goes through `runway_list` in order and takes the first runway that
    /// lies less than 90 degrees off `direction`, whether or not a later one
    /// lies nearer. An entry that names no runway of the airport ends the
    /// search with `UnknownRunway`; a list that runs out ends it with
    /// `NoSuitableRunway`.
    pub fn select_preferred_rwy(
        &self,
        direction: u32,
        runway_list: &Vec<String>,
    ) -> (chosen: Result<String, SelectionError>)
        ensures
            choice_view(chosen) == preferred_choice(
                self@.icao,
                self@.runways,
                runway_list.deep_view(),
                direction,
            ),
            chosen matches Ok(id) ==> exists|k: int|
                is_first_settling(self@.runways, runway_list.deep_view(), direction as int, k)
                    && favours(self@.runways, id@, direction as int)
                    && id@ == #[trigger] runway_list.deep_view()[k],
    {
        let ghost runways = self@.runways;
        let ghost prefs = runway_list.deep_view();
        let n: usize = runway_list.len();
        let mut k: usize = 0;
        while k < n
            invariant
                n == runway_list.len(),
                k <= n,
                runways == self@.runways,
                prefs == runway_list.deep_view(),
                forall|j: int|
                    0 <= j < k ==> !settles(runways, #[trigger] prefs[j], direction as int),
            decreases n - k,
        {
            match self.get_runway_heading(runway_list[k].clone()) {
                Err(e) => {
                    proof {
                        assert(is_first_settling(runways, prefs, direction as int, k as int));
                        lemma_first_settling_unique(
                            runways,
                            prefs,
                            direction as int,
                            k as int,
                            first_settling(runways, prefs, direction as int),
                        );
                    }
                    return Err(e);
                },
                Ok(runway) => {
                    if runway.get_wind_dir_difference(direction) < PREFERENCE_LIMIT {
                        proof {
                            lemma_first_settling_unique(
                                runways,
                                prefs,
                                direction as int,
                                k as int,
                                first_settling(runways, prefs, direction as int),
                            );
                        }
                        return Ok(runway.id.clone());
                    }
                },
            }
            k += 1;
        }
        Err(SelectionError::NoSuitableRunway { direction })
    }

    /// Takes from `runway_list` the runway nearest `direction`, and of
    /// several equally near the one that comes first. Only an empty list
    /// fails, with `NoRunwaysDefined`.
    pub fn select_any_rwy(
        &self,
        direction: u32,
        runway_list: &Vec<Runway>,
    ) -> (chosen: Result<String, SelectionError>)
        ensures
            choice_view(chosen) == closest_choice(runway_list.deep_view(), direction as int),
            chosen matches Ok(id) ==> exists|k: int|
                is_closest(runway_list.deep_view(), direction as int, k)
                    && id@ == (#[trigger] runway_list.deep_view()[k]).id,
    {
        let ghost runways = runway_list.deep_view();
        let n: usize = runway_list.len();
        if n == 0 {
            return Err(SelectionError::NoRunwaysDefined);
        }
        let mut selected: usize = 0;
        let mut diff: u32 = runway_list[0].get_wind_dir_difference(direction);
        let mut i: usize = 1;
        while i < n
            invariant
                n == runway_list.len(),
                runways == runway_list.deep_view(),
                1 <= i <= n,
                selected < i,
                diff == runways[selected as int].off_wind(direction as int),
                forall|j: int|
                    0 <= j < i ==> diff <= (#[trigger] runways[j]).off_wind(direction as int),
                forall|j: int|
                    0 <= j < selected ==> diff < (#[trigger] runways[j]).off_wind(direction as int),
            decreases n - i,
        {
            let nd: u32 = runway_list[i].get_wind_dir_difference(direction);
            if nd < diff {
                diff = nd;
                selected = i;
            }
            i += 1;
        }
        proof {
            lemma_closest_unique(
                runways,
                direction as int,
                selected as int,
                closest(runways, direction as int),
            );
        }
        Ok(runway_list[selected].id.clone())
    }
}

} // verus!
