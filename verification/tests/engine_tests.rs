use gene::cell::Cell;
use gene::simulation::Simulation;
use gene::{FitnessEvaluator, Parameters};

struct SumEvaluator;

impl FitnessEvaluator for SumEvaluator {
    fn evaluate(&self, code: &Vec<u8>) -> u64 {
        code.iter().map(|&b| b as u64).sum()
    }
}

#[test]
fn generate_population_shape() {
    let params = Parameters::new(SumEvaluator {});
    let mut sim = Simulation::new(params);
    let pop = sim.generate_population();

    assert_eq!(pop.len(), 100);
    assert_eq!(sim.current_id, 100);
    for cell in pop.iter() {
        assert_eq!(cell.genetic_code.len(), 10);
        assert_eq!(cell.score, 0);
    }
    // Ids are pairwise unique.
    for i in 0..pop.len() {
        for j in 0..i {
            assert_ne!(pop[i].id, pop[j].id);
        }
    }
}

#[test]
fn evaluate_fitness_scores_every_cell() {
    let params = Parameters::new(SumEvaluator {}).with_genetic_code_length(3);
    let mut sim = Simulation::new(params);
    sim.current_id = 2;
    let mut pop = vec![Cell::new(0, vec![1, 2, 3]), Cell::new(1, vec![200, 200, 200])];
    sim.evaluate_fitness(&mut pop);
    assert_eq!(pop[0].score, 6);
    assert_eq!(pop[1].score, 600);
}

#[test]
fn select_removes_the_lowest_scorers() {
    let params = Parameters::new(SumEvaluator {}).with_genetic_code_length(2);
    let sim = Simulation::new(params);

    let scores: [u64; 6] = [5, 1, 9, 3, 7, 2];
    let mut pop: Vec<Cell> = Vec::new();
    for (i, &s) in scores.iter().enumerate() {
        let mut cell = Cell::new(i as u64, vec![0, 0]);
        cell.score = s;
        pop.push(cell);
    }

    // keep_threshold one half on six cells trims exactly three.
    let best = sim.select_population(&mut pop);
    assert_eq!(best, 2, "the id of the cell that scored 9");
    assert_eq!(pop.len(), 3);
    let mut surviving: Vec<u64> = pop.iter().map(|c| c.score).collect();
    surviving.sort();
    assert_eq!(surviving, vec![5, 7, 9]);
    assert!(pop.iter().any(|c| c.id == best));
}

#[test]
fn select_always_removes_at_least_one() {
    // keep_threshold 1.0 keeps everything by the fraction alone, yet one
    // cell must still go.
    let params = Parameters::new(SumEvaluator {})
        .with_genetic_code_length(2)
        .with_keep_threshold(1_000_000);
    let sim = Simulation::new(params);

    let mut pop: Vec<Cell> = Vec::new();
    for (i, &s) in [8u64, 3, 6, 4].iter().enumerate() {
        let mut cell = Cell::new(i as u64, vec![0, 0]);
        cell.score = s;
        pop.push(cell);
    }
    let best = sim.select_population(&mut pop);
    assert_eq!(best, 0);
    assert_eq!(pop.len(), 3);
    assert!(pop.iter().all(|c| c.score != 3), "the lowest scorer is gone");
}

#[test]
fn select_with_nothing_kept_empties_the_population() {
    // keep_threshold zero trims the whole population.
    let params = Parameters::new(SumEvaluator {})
        .with_genetic_code_length(2)
        .with_keep_threshold(0);
    let sim = Simulation::new(params);

    let mut pop: Vec<Cell> = Vec::new();
    for (i, &s) in [8u64, 3, 6].iter().enumerate() {
        let mut cell = Cell::new(i as u64, vec![0, 0]);
        cell.score = s;
        pop.push(cell);
    }
    let best = sim.select_population(&mut pop);
    assert_eq!(best, 0);
    assert_eq!(pop.len(), 0);
}

#[test]
fn mutations_with_zero_chance_change_nothing() {
    let params = Parameters::new(SumEvaluator {})
        .with_genetic_code_length(3)
        .with_mutation_chance_percent(0);
    let sim = Simulation::new(params);

    let mut pop: Vec<Cell> = Vec::new();
    for i in 0..50u64 {
        pop.push(Cell::new(i, vec![i as u8, 2, 3]));
    }
    sim.do_mutations(&mut pop);
    for (i, cell) in pop.iter().enumerate() {
        assert_eq!(cell.genetic_code, vec![i as u8, 2, 3]);
    }
}

#[test]
fn breed_refills_with_fresh_ids() {
    let params = Parameters::new(SumEvaluator {})
        .with_genetic_code_length(4)
        .with_population_size(6);
    let mut sim = Simulation::new(params);
    sim.current_id = 10;

    let parent_a = Cell::new(3, vec![1, 2, 3, 4]);
    let parent_b = Cell::new(7, vec![5, 6, 7, 8]);
    let mut pop = vec![parent_a, parent_b];

    sim.breed(&mut pop);
    assert_eq!(pop.len(), 6);
    assert_eq!(sim.current_id, 14);
    // The survivors are untouched.
    assert_eq!(pop[0].id, 3);
    assert_eq!(pop[1].id, 7);
    // Every offspring has a fresh id above all earlier ones and carries the
    // crossover of the two distinct parents, one way or the other.
    for (k, child) in pop[2..].iter().enumerate() {
        assert_eq!(child.id, 10 + k as u64);
        assert_eq!(child.score, 0);
        let ab = vec![1, 2, 7, 8];
        let ba = vec![5, 6, 3, 4];
        assert!(child.genetic_code == ab || child.genetic_code == ba);
    }
}

#[test]
fn mutations_touch_only_gene_values() {
    let params = Parameters::new(SumEvaluator {})
        .with_genetic_code_length(5)
        .with_mutation_chance_percent(1_000_000);
    let sim = Simulation::new(params);

    let mut pop: Vec<Cell> = Vec::new();
    for i in 0..20u64 {
        let mut cell = Cell::new(i, vec![100, 110, 120, 130, 140]);
        cell.score = 7 * i;
        pop.push(cell);
    }
    sim.do_mutations(&mut pop);

    assert_eq!(pop.len(), 20);
    for (i, cell) in pop.iter().enumerate() {
        assert_eq!(cell.id, i as u64);
        assert_eq!(cell.score, 7 * i as u64);
        assert_eq!(cell.genetic_code.len(), 5);
    }
}
