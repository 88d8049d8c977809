use gene::simulation::Simulation;
use gene::{FitnessEvaluator, Parameters};

struct SumEvaluator;

impl FitnessEvaluator for SumEvaluator {
    fn evaluate(&self, code: &Vec<u8>) -> u64 {
        code.iter().map(|&b| b as u64).sum()
    }
}

/// With the byte-sum scorer and the default parameters the maximum
/// achievable score is 10 * 255 = 2550; the evolved best must come within
/// two percent of it inside ten thousand generations.
#[test]
fn byte_sum_converges_near_the_maximum() {
    let params = Parameters::new(SumEvaluator {});
    let mut sim = Simulation::new(params);
    let mut pop = sim.generate_population();

    let expected_max: u64 = 10 * 255;
    let target = expected_max - expected_max * 2 / 100;
    let mut best_score: u64 = 0;

    for _generation in 0..10_000usize {
        sim.evaluate_fitness(&mut pop);
        let best = sim.select_population(&mut pop);
        best_score = pop
            .iter()
            .find(|c| c.id == best)
            .expect("the best cell survives selection")
            .score;
        if best_score >= target {
            break;
        }
        sim.breed(&mut pop);
        sim.do_mutations(&mut pop);
    }

    assert!(
        best_score >= target,
        "best score {} never came within 2% of {}",
        best_score,
        expected_max
    );
}
