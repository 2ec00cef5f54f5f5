//! Entries of the station directory.

use vstd::prelude::*;

use crate::number::Float64;

verus! {

/// One station of the reference directory.
#[derive(Debug, PartialEq)]
pub struct Station {
    /// The primary code, unique in a directory.
    pub icao_id: String,
    pub iata_id: String,
    /// The alternate code; may be empty, and need not be unique.
    pub faa_id: String,
    pub wmo_id: String,
    pub lat: Float64,
    pub lon: Float64,
    pub elev: i32,
    pub site: String,
    pub state: String,
    pub country: String,
    pub priority: i32,
}

impl Clone for Station {
    fn clone(&self) -> (copy: Self)
        ensures
            copy == *self,
    {
        Station {
            icao_id: self.icao_id.clone(),
            iata_id: self.iata_id.clone(),
            faa_id: self.faa_id.clone(),
            wmo_id: self.wmo_id.clone(),
            lat: self.lat,
            lon: self.lon,
            elev: self.elev,
            site: self.site.clone(),
            state: self.state.clone(),
            country: self.country.clone(),
            priority: self.priority,
        }
    }
}

} // verus!
