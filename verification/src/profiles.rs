//! Station lists that a user saves and loads by name.

use vstd::prelude::*;

verus! {

/// A named list of station identifiers.
#[derive(Debug)]
pub struct Profile {
    pub name: String,
    pub stations: Vec<String>,
}

/// A profile together with the place it was read from.
#[derive(Debug)]
pub struct ProfileResponse {
    pub filename: String,
    pub directory: String,
    pub data: Profile,
}

} // verus!
