//! The failures that the data-access core reports.

use vstd::prelude::*;
use vstd::string::*;

verus! {

/// Why a request to the core failed.
#[derive(Clone, Copy, Debug, PartialEq, Eq, Structural)]
pub enum Error {
    /// The resolver was used before a station directory was loaded.
    NotInitialized,
    /// The identifier, or the request made for it, resolves to nothing.
    NotFound,
    /// The two lookup tables disagree; a defect, not a user error.
    InconsistentState,
    /// The upstream service could not be reached.
    UpstreamUnavailable,
    /// The upstream payload could not be decompressed or decoded.
    UpstreamMalformed,
    /// The identifier supplied by the caller has the wrong shape.
    InvalidInput,
}

impl Error {
    /// The text shown to a user for each failure.
    pub open spec fn message_text(self) -> Seq<char> {
        match self {
            Error::NotInitialized => "Error: station data not initialized"@,
            Error::NotFound => "Error: could not find ID in ICAO or FAA lookups"@,
            Error::InconsistentState => "Error: inconsistency between FAA and ICAO data"@,
            Error::UpstreamUnavailable => "Error: upstream service unavailable"@,
            Error::UpstreamMalformed => "Error: upstream payload malformed"@,
            Error::InvalidInput => "Invalid station ID, must be a single ICAO or FAA ID"@,
        }
    }

    /// Renders the failure for display.
    pub fn message(&self) -> (text: String)
        ensures
            text@ == self.message_text(),
    {
        match self {
            Error::NotInitialized => String::from_str("Error: station data not initialized"),
            Error::NotFound => String::from_str("Error: could not find ID in ICAO or FAA lookups"),
            Error::InconsistentState => String::from_str(
                "Error: inconsistency between FAA and ICAO data",
            ),
            Error::UpstreamUnavailable => String::from_str("Error: upstream service unavailable"),
            Error::UpstreamMalformed => String::from_str("Error: upstream payload malformed"),
            Error::InvalidInput => String::from_str(
                "Invalid station ID, must be a single ICAO or FAA ID",
            ),
        }
    }
}

} // verus!
