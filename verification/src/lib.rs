//! Runway selection from surface wind.
//!
//! Given the runways of an airport, its preferences and a wind observation,
//! the library picks the departure and the arrival runway, and renders the
//! choice as lines of an active-runway file.

pub mod airport;
pub mod config;
pub mod error;
pub mod geometry;
pub mod policy;
pub mod report;
pub mod runway_file;
pub mod runway_map;
pub mod selection;
pub mod text;
pub mod wind;

pub use airport::{Airport, AirportView};
pub use config::Config;
pub use error::{SelectionError, SelectionErrorView};
pub use geometry::{angular_difference, Runway, RunwayView};
pub use wind::{WindDirection, WindObservation, WindReport, WindSpeed};
