//! Data-access core of a desktop weather-report viewer: a resolver that
//! normalises station identifiers against a reference directory, and a
//! time-to-live cache in front of a slow upstream source.

pub mod atis;
pub mod awc;
pub mod error;
pub mod metar;
pub mod number;
pub mod profiles;
pub mod settings;
pub mod station;
pub mod text;
pub mod weather_cache;
