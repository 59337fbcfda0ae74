//! A list of seeds, each with the mutations to try on it, as read from a `.toml` file.
//! Reading and parsing the file happens outside the library.
use vstd::prelude::*;

verus! {

/// The seeds to start from.
#[derive(Debug, Clone)]
pub struct Config {
    pub seeds: Vec<SeedConfig>,
}

/// One seed file and the mutations to try on it.
#[derive(Debug, Clone)]
pub struct SeedConfig {
    pub path: String,
    pub mutations: Option<Vec<MutationConfig>>,
}

/// A mutator by name, how many times to run it, and an optional range.
#[derive(Debug, Clone)]
pub struct MutationConfig {
    pub name: String,
    pub iterations: u32,
    pub range: Option<[u32; 2]>,
}

} // verus!
