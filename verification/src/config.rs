//! The settings of a run.

use vstd::prelude::*;
use crate::airport::Airport;

verus! {

/// What a run works from: where the result goes, the thresholds and the
/// assumed direction for airports that name none of their own, and the
/// airports.
#[derive(Debug)]
pub struct Config {
    pub rwy_file: String,
    pub no_factor_wind: Option<u32>,
    pub pref_wind: Option<u32>,
    pub assumed_dir: Option<u32>,
    pub airports: Vec<Airport>,
}

} // verus!
