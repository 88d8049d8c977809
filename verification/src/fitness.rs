use vstd::prelude::*;

verus! {

/// The evaluation heuristic for a simulation, supplied by the caller.
///
/// Nothing is assumed of the scores it hands back: every contract of the
/// engine holds whatever values an implementation returns.
pub trait FitnessEvaluator {
    /// Evaluate the provided genetic code and return a score.
    ///
    /// Higher is better.
    fn evaluate(&self, code: &Vec<u8>) -> u64;
}

} // verus!
