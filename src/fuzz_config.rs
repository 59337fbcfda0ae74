//! `FuzzConfig` carries the stages that configure a `ByteMutator`. Reading one from a
//! `.toml` file happens outside the library, which only receives the resulting stages.
use vstd::prelude::*;

use crate::mutators::{Mutation, MutationType};
use crate::{Iterations, Stage};

verus! {

/// Creates and configures `Stage` and `Mutation` values.
#[derive(Debug, Clone)]
pub struct FuzzConfig {
    pub stages: Vec<Stage>,
}

impl FuzzConfig {
    /// One unlimited stage, starting at 0, that flips bits over the whole buffer.
    pub fn default() -> (r: FuzzConfig)
        ensures
            r.stages@.len() == 1,
            r.stages@[0].count == 0,
            r.stages@[0].iterations == Iterations::Unlimited,
            r.stages@[0].mutations@ == seq![
                Mutation { range: None, mutation: MutationType::BitFlipper { width: 1 } },
            ],
    {
        let mut mutations: Vec<Mutation> = Vec::new();
        mutations.push(Mutation { range: None, mutation: MutationType::BitFlipper { width: 1 } });
        let mut stages: Vec<Stage> = Vec::new();
        stages.push(Stage { count: 0, iterations: Iterations::Unlimited, mutations });
        FuzzConfig { stages }
    }
}

} // verus!
