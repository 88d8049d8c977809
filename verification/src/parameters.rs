use vstd::prelude::*;

use crate::fitness::FitnessEvaluator;

verus! {

/// Probabilities and fractions are held in parts per million of this scale:
/// a value of `PPM_SCALE` is 1.0, a value of 10_000 is 0.01.
pub const PPM_SCALE: u64 = 1_000_000;

/// Parameters of a simulation. Immutable for the duration of a run.
pub struct Parameters<T: FitnessEvaluator> {
    /// Size of the population for every generation. (default = 100)
    ///
    /// Increasing this value might improve results (because of a larger gene
    /// pool), but will *drastically* increase time to convergence.
    pub population_size: usize,
    /// The length of the genetic code for all cells. (default = 10)
    ///
    /// This value will most likely need to be changed in accordance with the
    /// problem you're trying to solve.
    pub genetic_code_length: usize,
    /// The fraction of the population retained by score at every selection
    /// pass, in parts per million of `PPM_SCALE`. (default = 500_000, one
    /// half)
    pub keep_threshold: u64,
    /// The chance that a cell is subjected to the mutation pass in a
    /// generation, in parts per million of `PPM_SCALE`. (default = 10_000,
    /// one percent)
    pub mutation_chance_percent: u64,
    /// How many generations between result samples. (default = 1000)
    ///
    /// Since observing results is expensive (a result contains a _copy_ of
    /// the genetic code of the current best cell), this parameter allows
    /// fine-grained control on exactly when progress is observed. Lower
    /// values will decrease performance but increase observability, and
    /// vice-versa.
    pub emit_result_every: usize,
    /// The fitness evaluator to use for this simulation.
    pub fitness_evaluator: T,
}

impl<T: FitnessEvaluator> Parameters<T> {
    /// The bounds every parameter set must satisfy: positive sizes and
    /// periods, and fractions no greater than 1.0.
    pub open spec fn wf(self) -> bool {
        &&& self.population_size >= 1
        &&& self.genetic_code_length >= 1
        &&& self.keep_threshold <= PPM_SCALE
        &&& self.mutation_chance_percent <= PPM_SCALE
        &&& self.emit_result_every >= 1
    }

    /// The documented defaults, with the given evaluator.
    pub fn new(evaluator: T) -> (p: Parameters<T>)
        ensures
            p.population_size == 100,
            p.genetic_code_length == 10,
            p.keep_threshold == 500_000,
            p.mutation_chance_percent == 10_000,
            p.emit_result_every == 1000,
            p.fitness_evaluator == evaluator,
            p.wf(),
    {
        Parameters {
            population_size: 100,
            genetic_code_length: 10,
            keep_threshold: 500_000,
            mutation_chance_percent: 10_000,
            emit_result_every: 1000,
            fitness_evaluator: evaluator,
        }
    }

    #[must_use]
    pub fn with_population_size(self, population_size: usize) -> (p: Parameters<T>)
        requires
            population_size >= 1,
        ensures
            p == (Parameters { population_size, ..self }),
    {
        Parameters { population_size, ..self }
    }

    #[must_use]
    pub fn with_genetic_code_length(self, length: usize) -> (p: Parameters<T>)
        requires
            length >= 1,
        ensures
            p == (Parameters { genetic_code_length: length, ..self }),
    {
        Parameters { genetic_code_length: length, ..self }
    }

    /// Set the retained fraction, in parts per million of `PPM_SCALE`.
    #[must_use]
    pub fn with_keep_threshold(self, threshold: u64) -> (p: Parameters<T>)
        requires
            threshold <= PPM_SCALE,
        ensures
            p == (Parameters { keep_threshold: threshold, ..self }),
    {
        Parameters { keep_threshold: threshold, ..self }
    }

    /// Set the mutation chance, in parts per million of `PPM_SCALE`.
    #[must_use]
    pub fn with_mutation_chance_percent(self, mutation_chance: u64) -> (p: Parameters<T>)
        requires
            mutation_chance <= PPM_SCALE,
        ensures
            p == (Parameters { mutation_chance_percent: mutation_chance, ..self }),
    {
        Parameters { mutation_chance_percent: mutation_chance, ..self }
    }
}

} // verus!
