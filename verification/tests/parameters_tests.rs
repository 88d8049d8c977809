use gene::{FitnessEvaluator, Parameters};

struct MockEvaluator;

impl FitnessEvaluator for MockEvaluator {
    fn evaluate(&self, _code: &Vec<u8>) -> u64 {
        0
    }
}

#[test]
fn parameters_init() {
    let params = Parameters::new(MockEvaluator {});
    assert_eq!(params.genetic_code_length, 10);
    assert_eq!(params.population_size, 100);
    assert_eq!(params.keep_threshold, 500_000);
    assert_eq!(params.mutation_chance_percent, 10_000);
    assert_eq!(params.emit_result_every, 1000);
}

#[test]
fn parameters_builders_set_each_field() {
    let params = Parameters::new(MockEvaluator {})
        .with_population_size(40)
        .with_genetic_code_length(6)
        .with_keep_threshold(250_000)
        .with_mutation_chance_percent(30_000);
    assert_eq!(params.population_size, 40);
    assert_eq!(params.genetic_code_length, 6);
    assert_eq!(params.keep_threshold, 250_000);
    assert_eq!(params.mutation_chance_percent, 30_000);
    assert_eq!(params.emit_result_every, 1000);
}
