use std::sync::mpsc;

use gene::simulation::Simulation;
use gene::{FitnessEvaluator, Parameters};

struct SumEvaluator;

impl FitnessEvaluator for SumEvaluator {
    fn evaluate(&self, code: &Vec<u8>) -> u64 {
        code.iter().map(|&b| b as u64).sum()
    }
}

#[test]
fn run_emits_then_honors_stop_and_closes_the_stream() {
    let (result_tx, result_rx) = mpsc::channel();
    let (stop_tx, stop_rx) = mpsc::channel();
    // The stop request is already pending: the run emits its first
    // snapshot, sees the signal at the generation boundary, and returns.
    stop_tx.send(true).expect("receiver is alive");

    let params = Parameters::new(SumEvaluator {})
        .with_population_size(10)
        .with_genetic_code_length(4);
    let mut sim = Simulation::new(params);
    sim.run(result_tx, stop_rx);

    let first = result_rx.recv().expect("one snapshot was emitted");
    assert_eq!(first.genes.len(), 4);
    let sum: u64 = first.genes.iter().map(|&b| b as u64).sum();
    assert_eq!(first.score, sum, "the snapshot carries the evaluated score");
    // The worker is gone, so the stream is closed.
    assert!(result_rx.recv().is_err());
}

#[test]
fn run_ends_when_stop_sender_is_gone() {
    let (result_tx, result_rx) = mpsc::channel();
    let (stop_tx, stop_rx) = mpsc::channel::<bool>();
    drop(stop_tx);

    let params = Parameters::new(SumEvaluator {})
        .with_population_size(10)
        .with_genetic_code_length(4);
    let mut sim = Simulation::new(params);
    sim.run(result_tx, stop_rx);

    assert!(result_rx.recv().is_ok(), "the first generation still emitted");
    assert!(result_rx.recv().is_err());
}

#[test]
fn run_ends_when_nobody_listens() {
    let (result_tx, result_rx) = mpsc::channel();
    let (stop_tx, stop_rx) = mpsc::channel::<bool>();
    drop(result_rx);

    let params = Parameters::new(SumEvaluator {})
        .with_population_size(10)
        .with_genetic_code_length(4);
    let mut sim = Simulation::new(params);
    // The very first send fails, which the run treats as "caller gone".
    sim.run(result_tx, stop_rx);
    drop(stop_tx);
}
