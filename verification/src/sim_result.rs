use vstd::prelude::*;

verus! {

/// A single datapoint: a snapshot of the best solution the simulation has
/// found so far. It owns a copy of the genetic code and never aliases the
/// live population.
pub struct SimResult {
    /// The genetic code of the best cell.
    pub genes: Vec<u8>,
    /// The score of the best cell, as computed by the fitness evaluator.
    pub score: u64,
}

} // verus!
