//! Display preferences.

use vstd::prelude::*;

verus! {

/// Which optional panels the report view shows.
#[derive(Copy, Clone, Debug, PartialEq, Eq, Structural)]
pub struct Settings {
    pub show_vatsim_atis: bool,
    pub show_altimeter: bool,
    pub show_wind: bool,
}

impl Settings {
    /// The preferences of a fresh installation: every panel is shown.
    pub fn new() -> (settings: Self)
        ensures
            settings.show_vatsim_atis,
            settings.show_altimeter,
            settings.show_wind,
    {
        Self { show_vatsim_atis: true, show_altimeter: true, show_wind: true }
    }
}

impl Default for Settings {
    fn default() -> (settings: Self)
        ensures
            settings.show_vatsim_atis,
            settings.show_altimeter,
            settings.show_wind,
    {
        Self::new()
    }
}

} // verus!
