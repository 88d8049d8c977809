use vstd::prelude::*;
use vstd::multiset::Multiset;

use crate::cell::{crossover, Cell, CellModel};
use crate::channel::{poll_stop, send_result, StopPoll};
use crate::fitness::FitnessEvaluator;
use crate::parameters::{Parameters, PPM_SCALE};
use crate::rng::{random_below, random_byte};
use crate::sim_result::SimResult;

verus! {

broadcast use vstd::seq_lib::group_to_multiset_ensures;

/// The models of the cells of a population, in order.
pub open spec fn pop_models(s: Seq<Cell>) -> Seq<CellModel> {
    s.map_values(|c: Cell| c.model())
}

/// Every genetic code of the population has length `len`.
pub open spec fn codes_len_ok(s: Seq<Cell>, len: nat) -> bool {
    forall|i: int| 0 <= i < s.len() ==> (#[trigger] s[i].genetic_code)@.len() == len
}

/// No two cells of the population share an id.
pub open spec fn ids_unique(s: Seq<Cell>) -> bool {
    forall|i: int, j: int| 0 <= i < j < s.len() ==> s[i].id != s[j].id
}

/// Every id of the population lies below `bound` (the next id the engine
/// will assign).
pub open spec fn ids_below(s: Seq<Cell>, bound: u64) -> bool {
    forall|i: int| 0 <= i < s.len() ==> (#[trigger] s[i].id) < bound
}

/// How many cells one selection pass removes from a population of `n`:
/// the fraction not kept, rounded down, but always at least one.
pub open spec fn spec_trim_count(n: int, keep_ppm: int) -> int {
    let base = n * (PPM_SCALE - keep_ppm) / (PPM_SCALE as int);
    if base < 1 {
        1
    } else {
        base
    }
}

/// Removing one element of a population keeps the models of the others.
proof fn lemma_pop_models_remove(s: Seq<Cell>, i: int)
    requires
        0 <= i < s.len(),
    ensures
        pop_models(s.remove(i)) == pop_models(s).remove(i),
{
    assert(pop_models(s.remove(i)) =~= pop_models(s).remove(i));
}

/// The number of cells one selection pass removes, computed without
/// overflow: `spec_trim_count` exactly, which lies between 1 and `n`.
fn trim_count(n: usize, keep_ppm: u64) -> (t: usize)
    requires
        n >= 1,
        keep_ppm <= PPM_SCALE,
    ensures
        t == spec_trim_count(n as int, keep_ppm as int),
        1 <= t <= n,
{
    proof {
        vstd::arithmetic::mul::lemma_mul_inequality(
            (PPM_SCALE - keep_ppm) as int,
            PPM_SCALE as int,
            n as int,
        );
        vstd::arithmetic::mul::lemma_mul_is_commutative(n as int, (PPM_SCALE - keep_ppm) as int);
        vstd::arithmetic::mul::lemma_mul_is_commutative(n as int, PPM_SCALE as int);
        vstd::arithmetic::div_mod::lemma_div_is_ordered(
            (n as int) * ((PPM_SCALE - keep_ppm) as int),
            (n as int) * (PPM_SCALE as int),
            PPM_SCALE as int,
        );
        vstd::arithmetic::div_mod::lemma_div_by_multiple(n as int, PPM_SCALE as int);
        vstd::arithmetic::div_mod::lemma_div_pos_is_pos(
            (n as int) * ((PPM_SCALE - keep_ppm) as int),
            PPM_SCALE as int,
        );
        assert((n as int) * ((PPM_SCALE - keep_ppm) as int) >= 0) by (nonlinear_arith)
            requires
                n >= 1,
                keep_ppm <= PPM_SCALE,
        ;
        assert((n as int) * ((PPM_SCALE - keep_ppm) as int) <= u128::MAX) by (nonlinear_arith)
            requires
                n <= u64::MAX,
                keep_ppm <= PPM_SCALE,
        ;
    }
    let base128: u128 = ((n as u128) * ((PPM_SCALE - keep_ppm) as u128)) / (PPM_SCALE as u128);
    let base: usize = base128 as usize;
    if base < 1 {
        1
    } else {
        base
    }
}

/// The index of a lowest-scoring cell, leaving out the index `skip` when
/// `have_skip` holds.
fn min_score_index(pop: &Vec<Cell>, have_skip: bool, skip: usize) -> (r: usize)
    requires
        pop@.len() >= 1,
        have_skip ==> skip < pop@.len() && pop@.len() >= 2,
    ensures
        r < pop@.len(),
        have_skip ==> r != skip,
        forall|i: int|
            0 <= i < pop@.len() && (have_skip ==> i != skip) ==> pop@[r as int].score <= (
            #[trigger] pop@[i]).score,
{
    let mut r: usize = if have_skip && skip == 0 {
        1
    } else {
        0
    };
    let mut i: usize = r + 1;
    while i < pop.len()
        invariant
            r < i,
            i <= pop@.len(),
            r < pop@.len(),
            have_skip ==> skip < pop@.len() && r != skip,
            forall|j: int|
                0 <= j < i && (have_skip ==> j != skip) ==> pop@[r as int].score <= (
                #[trigger] pop@[j]).score,
        decreases pop@.len() - i,
    {
        if (!have_skip || i != skip) && pop[i].score < pop[r].score {
            r = i;
        }
        i += 1;
    }
    r
}

/// A fresh copy of a byte sequence, for snapshots that must never alias
/// the live population.
fn clone_bytes(v: &Vec<u8>) -> (r: Vec<u8>)
    ensures
        r@ == v@,
{
    let mut r: Vec<u8> = Vec::new();
    let mut i: usize = 0;
    while i < v.len()
        invariant
            i <= v@.len(),
            r@.len() == i,
            forall|j: int| 0 <= j < i ==> r@[j] == v@[j],
        decreases v@.len() - i,
    {
        r.push(v[i]);
        i += 1;
    }
    proof {
        assert(r@ =~= v@);
    }
    r
}

/// `c` carries the crossover of the codes of two distinct cells of
/// `parents`.
pub open spec fn offspring_of(c: Cell, parents: Seq<Cell>) -> bool {
    exists|a: int, b: int|
        #![trigger parents[a], parents[b]]
        0 <= a < parents.len() && 0 <= b < parents.len() && a != b && c.genetic_code@ == crossover(
            parents[a].genetic_code@,
            parents[b].genetic_code@,
        )
}

/// The evolution engine: it owns the configuration and the monotonic
/// counter from which every cell id is assigned. Ids are never reused.
pub struct Simulation<T: FitnessEvaluator> {
    pub params: Parameters<T>,
    pub current_id: u64,
}

impl<T: FitnessEvaluator> Simulation<T> {
    pub fn new(p: Parameters<T>) -> (sim: Simulation<T>)
        ensures
            sim.params == p,
            sim.current_id == 0,
    {
        Simulation { params: p, current_id: 0 }
    }

    /// A fresh population: exactly `population_size` cells, each with a
    /// uniformly random genetic code of `genetic_code_length` bytes, ids
    /// assigned in order from the engine's counter, scores zero.
    pub fn generate_population(&mut self) -> (pop: Vec<Cell>)
        requires
            old(self).params.wf(),
            old(self).current_id + old(self).params.population_size <= u64::MAX,
        ensures
            final(self).params == old(self).params,
            final(self).current_id == old(self).current_id + old(self).params.population_size,
            pop@.len() == old(self).params.population_size,
            forall|i: int|
                0 <= i < pop@.len() ==> (#[trigger] pop@[i]).id == old(self).current_id + i,
            forall|i: int| 0 <= i < pop@.len() ==> (#[trigger] pop@[i]).score == 0,
            codes_len_ok(pop@, old(self).params.genetic_code_length as nat),
            ids_unique(pop@),
            ids_below(pop@, final(self).current_id),
    {
        let size = self.params.population_size;
        let code_len = self.params.genetic_code_length;
        let mut pop: Vec<Cell> = Vec::new();
        let mut i: usize = 0;
        while i < size
            invariant
                i <= size,
                self.params == old(self).params,
                size == self.params.population_size,
                code_len == self.params.genetic_code_length,
                old(self).current_id + size <= u64::MAX,
                self.current_id == old(self).current_id + i,
                pop@.len() == i,
                forall|k: int|
                    0 <= k < pop@.len() ==> (#[trigger] pop@[k]).id == old(self).current_id + k,
                forall|k: int| 0 <= k < pop@.len() ==> (#[trigger] pop@[k]).score == 0,
                codes_len_ok(pop@, code_len as nat),
            decreases size - i,
        {
            let mut code: Vec<u8> = Vec::new();
            let mut j: usize = 0;
            while j < code_len
                invariant
                    j <= code_len,
                    code@.len() == j,
                decreases code_len - j,
            {
                code.push(random_byte());
                j += 1;
            }
            pop.push(Cell::new(self.current_id, code));
            self.current_id = self.current_id + 1;
            i += 1;
        }
        pop
    }

    /// One truncation-selection pass. With `n` the population size and
    /// `keep_threshold` the retained fraction, exactly
    /// `max(1, floor(n * (1 - keep_threshold)))` of the lowest-scoring cells
    /// are removed, and every removed cell scores no higher than every
    /// survivor. The returned id names a highest-scoring cell of the
    /// population *before* trimming; whenever anything survives, that cell
    /// is among the survivors.
    pub fn select_population(&self, pop: &mut Vec<Cell>) -> (best: u64)
        requires
            self.params.wf(),
            old(pop)@.len() >= 1,
        ensures
            ({
                let n = old(pop)@.len() as int;
                let trim = spec_trim_count(n, self.params.keep_threshold as int);
                let before = pop_models(old(pop)@);
                let after = pop_models(final(pop)@);
                &&& final(pop)@.len() == n - trim
                &&& after.to_multiset().subset_of(before.to_multiset())
                &&& forall|m: CellModel, j: int|
                    #![trigger before.to_multiset().count(m), after[j]]
                    before.to_multiset().count(m) > after.to_multiset().count(m) && 0 <= j
                        < after.len() ==> m.score <= after[j].score
                &&& forall|j: int| 0 <= j < after.len() ==> before.contains(#[trigger] after[j])
                &&& exists|b: int|
                    0 <= b < n && (#[trigger] before[b]).id == best && forall|j: int|
                        0 <= j < n ==> (#[trigger] before[j]).score <= before[b].score
                &&& trim < n ==> exists|s: int|
                    0 <= s < after.len() && (#[trigger] after[s]).id == best && forall|j: int|
                        0 <= j < n ==> (#[trigger] before[j]).score <= after[s].score
                &&& ids_unique(old(pop)@) ==> ids_unique(final(pop)@)
            }),
    {
        let ghost orig = pop@;
        let n = pop.len();
        let trim = trim_count(n, self.params.keep_threshold);

        // A highest-scoring cell of the whole generation.
        let mut best_idx: usize = 0;
        let mut i: usize = 1;
        while i < n
            invariant
                1 <= i <= n,
                best_idx < i,
                n == pop@.len(),
                pop@ == orig,
                forall|k: int|
                    0 <= k < i ==> (#[trigger] pop@[k]).score <= pop@[best_idx as int].score,
            decreases n - i,
        {
            if pop[i].score > pop[best_idx].score {
                best_idx = i;
            }
            i += 1;
        }
        let best_id = pop[best_idx].id;
        let ghost best_idx0 = best_idx as int;
        let ghost best_score = pop@[best_idx as int].score;

        let keep_best = trim < n;
        let ghost mut removed: Multiset<CellModel> = Multiset::empty();
        proof {
            assert(pop_models(orig).to_multiset() =~= pop_models(pop@).to_multiset().add(removed));
        }
        let mut k: usize = 0;
        while k < trim
            invariant
                k <= trim,
                trim <= n,
                n == orig.len(),
                pop@.len() == n - k,
                keep_best == (trim < n),
                pop_models(orig).to_multiset() == pop_models(pop@).to_multiset().add(removed),
                forall|m: CellModel, j: int|
                    #![trigger removed.count(m), pop_models(pop@)[j]]
                    removed.count(m) > 0 && 0 <= j < pop@.len() ==> m.score <= pop_models(
                        pop@,
                    )[j].score,
                keep_best ==> best_idx < pop@.len() && pop@[best_idx as int].id == best_id && pop@[
                    best_idx as int
                ].score == best_score,
                0 <= best_idx0 < n,
                orig[best_idx0].id == best_id,
                orig[best_idx0].score == best_score,
                forall|j: int| 0 <= j < orig.len() ==> (#[trigger] orig[j]).score <= best_score,
                forall|j: int|
                    0 <= j < pop@.len() ==> pop_models(orig).contains(
                        #[trigger] pop_models(pop@)[j],
                    ),
                ids_unique(orig) ==> ids_unique(pop@),
            decreases trim - k,
        {
            let r_idx = min_score_index(pop, keep_best, best_idx);
            let ghost pre = pop@;
            let ghost victim = pop@[r_idx as int].model();
            proof {
                // The victim sits in the original population, so the best
                // score bounds it from above.
                assert(pop_models(pre)[r_idx as int] == victim);
                assert(pop_models(pre).contains(victim));
                assert(pop_models(pre).to_multiset().count(victim) > 0);
                assert(pop_models(orig).to_multiset().count(victim) == pop_models(
                    pre,
                ).to_multiset().count(victim) + removed.count(victim));
                assert(pop_models(orig).contains(victim));
                let j0 = choose|j0: int|
                    0 <= j0 < pop_models(orig).len() && pop_models(orig)[j0] == victim;
                assert(orig[j0].score == victim.score);
                assert(victim.score <= best_score);
            }
            let _ = pop.remove(r_idx);
            proof {
                lemma_pop_models_remove(pre, r_idx as int);
                assert(pop_models(pop@).to_multiset() == pop_models(pre).to_multiset().remove(
                    victim,
                ));
                assert(pop_models(pre).to_multiset() =~= pop_models(pop@).to_multiset().insert(
                    victim,
                ));
                removed = removed.insert(victim);
                assert(pop_models(orig).to_multiset() =~= pop_models(pop@).to_multiset().add(
                    removed,
                ));
                // Every element left was already there before this removal.
                assert forall|j: int| 0 <= j < pop@.len() implies pop_models(orig).contains(
                    pop_models(pop@)[j],
                ) by {
                    let j0: int = if j < r_idx {
                        j
                    } else {
                        j + 1
                    };
                    assert(pre[j0] == pop@[j]);
                    assert(pop_models(pre)[j0] == pop_models(pop@)[j]);
                }
                // The victim scores no higher than anything that survives.
                assert forall|j: int| 0 <= j < pop@.len() implies victim.score <= pop_models(
                    pop@,
                )[j].score by {
                    let j0: int = if j < r_idx {
                        j
                    } else {
                        j + 1
                    };
                    assert(pre[j0] == pop@[j]);
                    if keep_best && j0 == best_idx {
                        assert(victim.score <= best_score);
                    } else {
                        assert(pre[r_idx as int].score <= pre[j0].score);
                    }
                }
                assert forall|m: CellModel, j: int|
                    removed.count(m) > 0 && 0 <= j < pop@.len() implies m.score <= pop_models(
                    pop@,
                )[j].score by {
                    let j0: int = if j < r_idx {
                        j
                    } else {
                        j + 1
                    };
                    assert(pre[j0] == pop@[j]);
                }
            }
            if keep_best && r_idx < best_idx {
                best_idx = best_idx - 1;
            }
            k += 1;
        }
        proof {
            let before = pop_models(orig);
            let after = pop_models(pop@);
            assert forall|m: CellModel| true implies after.to_multiset().count(m)
                <= before.to_multiset().count(m) by {
                assert(before.to_multiset().count(m) == after.to_multiset().count(m)
                    + removed.count(m));
            }
            assert(after.to_multiset().subset_of(before.to_multiset()));
            assert forall|m: CellModel, j: int|
                #![trigger before.to_multiset().count(m), after[j]]
                before.to_multiset().count(m) > after.to_multiset().count(m) && 0 <= j
                    < after.len() implies m.score <= after[j].score by {
                assert(before.to_multiset().count(m) == after.to_multiset().count(m)
                    + removed.count(m));
                assert(removed.count(m) > 0);
                assert(pop_models(pop@)[j] == after[j]);
            }
            // The returned id names a best cell of the original population.
            assert(before[best_idx0].id == best_id);
            assert forall|j: int| 0 <= j < before.len() implies (#[trigger] before[j]).score
                <= before[best_idx0].score by {
                assert(orig[j].score <= best_score);
            }
            // Whenever anything survives, the best cell is among the
            // survivors.
            if keep_best {
                assert(after[best_idx as int].id == best_id);
                assert(after[best_idx as int].score == best_score);
                assert forall|j: int| 0 <= j < before.len() implies (#[trigger] before[j]).score
                    <= after[best_idx as int].score by {
                    assert(orig[j].score <= best_score);
                }
            }
        }
        best_id
    }

    /// One breeding pass: while the population is below `population_size`,
    /// pick two distinct cells of the current survivors uniformly at random,
    /// cross their codes over and append the child under the next fresh id.
    /// Breeding never removes anyone, parents are the survivors only, and
    /// every offspring id is strictly greater than every id present before.
    pub fn breed(&mut self, pop: &mut Vec<Cell>)
        requires
            old(self).params.wf(),
            old(pop)@.len() >= 2,
            old(pop)@.len() <= old(self).params.population_size,
            codes_len_ok(old(pop)@, old(self).params.genetic_code_length as nat),
            ids_unique(old(pop)@),
            ids_below(old(pop)@, old(self).current_id),
            old(self).current_id + old(self).params.population_size <= u64::MAX,
        ensures
            final(self).params == old(self).params,
            final(self).current_id == old(self).current_id + (
            old(self).params.population_size - old(pop)@.len()),
            final(pop)@.len() == old(self).params.population_size,
            final(pop)@.subrange(0, old(pop)@.len() as int) == old(pop)@,
            forall|i: int|
                old(pop)@.len() <= i < final(pop)@.len() ==> (#[trigger] final(pop)@[i]).id
                    == old(self).current_id + (i - old(pop)@.len()),
            forall|i: int|
                old(pop)@.len() <= i < final(pop)@.len() ==> (#[trigger] final(pop)@[i]).score
                    == 0,
            forall|i: int|
                old(pop)@.len() <= i < final(pop)@.len() ==> offspring_of(
                    #[trigger] final(pop)@[i],
                    old(pop)@,
                ),
            forall|i: int, j: int|
                old(pop)@.len() <= i < final(pop)@.len() && 0 <= j < old(pop)@.len() ==> (
                #[trigger] final(pop)@[i]).id > (#[trigger] old(pop)@[j]).id,
            codes_len_ok(final(pop)@, old(self).params.genetic_code_length as nat),
            ids_unique(final(pop)@),
            ids_below(final(pop)@, final(self).current_id),
    {
        let ghost orig = pop@;
        let n0 = pop.len();
        let size = self.params.population_size;
        let code_len = self.params.genetic_code_length;
        while pop.len() < size
            invariant
                self.params == old(self).params,
                size == self.params.population_size,
                code_len == self.params.genetic_code_length,
                orig == old(pop)@,
                n0 == orig.len(),
                2 <= n0 <= size,
                n0 <= pop@.len() <= size,
                self.current_id == old(self).current_id + (pop@.len() - n0),
                old(self).current_id + size <= u64::MAX,
                pop@.subrange(0, n0 as int) == orig,
                codes_len_ok(pop@, code_len as nat),
                ids_unique(pop@),
                ids_below(pop@, self.current_id),
                forall|i: int|
                    n0 <= i < pop@.len() ==> (#[trigger] pop@[i]).id == old(self).current_id + (i
                        - n0),
                forall|i: int| n0 <= i < pop@.len() ==> (#[trigger] pop@[i]).score == 0,
                forall|i: int|
                    n0 <= i < pop@.len() ==> offspring_of(#[trigger] pop@[i], orig),
            decreases size - pop@.len(),
        {
            let a = random_below(n0);
            let mut b = random_below(n0 - 1);
            if b >= a {
                b = b + 1;
            }
            proof {
                assert(pop@.subrange(0, n0 as int)[a as int] == pop@[a as int]);
                assert(pop@.subrange(0, n0 as int)[b as int] == pop@[b as int]);
                assert(pop@[a as int] == orig[a as int]);
                assert(pop@[b as int] == orig[b as int]);
            }
            let parent_a = &pop[a];
            let child_code = parent_a.breed(&pop[b]);
            let ghost pre = pop@;
            let child = Cell::new(self.current_id, child_code);
            pop.push(child);
            self.current_id = self.current_id + 1;
            proof {
                assert(pop@.subrange(0, n0 as int) =~= pre.subrange(0, n0 as int));
                assert forall|i: int| n0 <= i < pop@.len() implies offspring_of(
                    #[trigger] pop@[i],
                    orig,
                ) by {
                    if i < pop@.len() - 1 {
                        assert(pop@[i] == pre[i]);
                    } else {
                        assert(pop@[i] == child);
                        assert(orig[a as int] == pre[a as int]);
                        assert(orig[b as int] == pre[b as int]);
                        assert(child.genetic_code@ == crossover(
                            orig[a as int].genetic_code@,
                            orig[b as int].genetic_code@,
                        ));
                    }
                }
            }
        }
        proof {
            assert(pop@.subrange(0, n0 as int) == orig);
        }
    }

    /// One mutation pass. Each cell is subjected to mutation with chance
    /// `mutation_chance_percent`. Inside a subjected cell each gene
    /// mutates independently with chance one percent, shifting the byte
    /// within a small range (50), or with a further chance of one in a
    /// thousand within a large range (250); the shifted value is clamped to
    /// the byte domain. Ids, scores, the population size and every code
    /// length are untouched; byte values are left open, as they depend on
    /// the random draws.
    pub fn do_mutations(&self, pop: &mut Vec<Cell>)
        ensures
            final(pop)@.len() == old(pop)@.len(),
            forall|i: int|
                0 <= i < old(pop)@.len() ==> (#[trigger] final(pop)@[i]).id == old(pop)@[i].id
                    && final(pop)@[i].score == old(pop)@[i].score
                    && final(pop)@[i].genetic_code@.len() == old(pop)@[i].genetic_code@.len(),
    {
        let ghost orig = pop@;
        let mut i: usize = 0;
        while i < pop.len()
            invariant
                i <= pop@.len(),
                pop@.len() == orig.len(),
                forall|k: int|
                    0 <= k < orig.len() ==> (#[trigger] pop@[k]).id == orig[k].id && pop@[k].score
                        == orig[k].score && pop@[k].genetic_code@.len()
                        == orig[k].genetic_code@.len(),
            decreases pop@.len() - i,
        {
            let throw = random_below(PPM_SCALE as usize) as u64;
            if throw < self.params.mutation_chance_percent {
                // Mutate the cell, gene by gene.
                let ghost before = pop@;
                let cell = &mut pop[i];
                let code_len = cell.genetic_code.len();
                let mut g: usize = 0;
                while g < code_len
                    invariant
                        g <= code_len,
                        0 <= i < before.len(),
                        cell.id == before[i as int].id,
                        cell.score == before[i as int].score,
                        cell.genetic_code@.len() == code_len,
                        code_len == before[i as int].genetic_code@.len(),
                    decreases code_len - g,
                {
                    let gene_throw = random_below(PPM_SCALE as usize);
                    if gene_throw >= 990_000 {
                        let range: u16 = if random_below(PPM_SCALE as usize) >= 999_000 {
                            250
                        } else {
                            50
                        };
                        let offset = random_below(range as usize) as u16;
                        let current = cell.genetic_code[g] as i32;
                        let shifted = current - (range as i32) / 2 + (offset as i32);
                        let mutated: u8 = if shifted < 0 {
                            0
                        } else if shifted > 255 {
                            255
                        } else {
                            shifted as u8
                        };
                        cell.genetic_code.set(g, mutated);
                    }
                    g += 1;
                }
                proof {
                    assert(pop@ == before.update(i as int, *cell));
                    assert forall|k: int| 0 <= k < orig.len() implies (#[trigger] pop@[k]).id
                        == orig[k].id && pop@[k].score == orig[k].score
                        && pop@[k].genetic_code@.len() == orig[k].genetic_code@.len() by {
                        if k != i {
                            assert(pop@[k] == before[k]);
                        }
                    }
                }
            }
            i += 1;
        }
    }

    /// Score every cell of the population with the configured evaluator.
    /// Ids and genetic codes are untouched; every score is overwritten.
    pub fn evaluate_fitness(&self, pop: &mut Vec<Cell>)
        ensures
            final(pop)@.len() == old(pop)@.len(),
            forall|i: int|
                0 <= i < old(pop)@.len() ==> (#[trigger] final(pop)@[i]).id == old(pop)@[i].id
                    && final(pop)@[i].genetic_code@ == old(pop)@[i].genetic_code@,
    {
        let ghost orig = pop@;
        let mut i: usize = 0;
        while i < pop.len()
            invariant
                i <= pop@.len(),
                pop@.len() == orig.len(),
                forall|k: int|
                    0 <= k < orig.len() ==> (#[trigger] pop@[k]).id == orig[k].id
                        && pop@[k].genetic_code@ == orig[k].genetic_code@,
            decreases pop@.len() - i,
        {
            let score = self.params.fitness_evaluator.evaluate(&pop[i].genetic_code);
            let cell = &mut pop[i];
            cell.score = score;
            i += 1;
        }
    }

    /// Whether a full generation step can always refill the population:
    /// selection must leave at least the two parents that breeding needs.
    pub open spec fn can_breed(self) -> bool {
        spec_trim_count(self.params.population_size as int, self.params.keep_threshold as int) + 2
            <= self.params.population_size
    }

    /// The run loop: generate a fresh population, then repeat
    /// evaluate, select, breed, mutate. Every `emit_result_every`
    /// generations (the first included) a snapshot of the best cell is sent
    /// on `result_tx`; a failed send means the caller is gone and ends the
    /// run. After each generation the stop channel is polled without
    /// blocking: an explicit stop signal or a hung-up sender ends the loop.
    /// The run also ends if the id space is nearly exhausted, so that ids
    /// are never reused.
    pub fn run(
        &mut self,
        result_tx: std::sync::mpsc::Sender<SimResult>,
        stop_rx: std::sync::mpsc::Receiver<bool>,
    )
        requires
            old(self).params.wf(),
            old(self).can_breed(),
            old(self).current_id + old(self).params.population_size <= u64::MAX,
        ensures
            final(self).params == old(self).params,
            final(self).current_id >= old(self).current_id,
    {
        let mut population = self.generate_population();
        let mut since_emit: usize = 0;
        let size = self.params.population_size;
        let code_len = self.params.genetic_code_length;
        loop
            invariant_except_break
                population@.len() == size,
                codes_len_ok(population@, code_len as nat),
                ids_unique(population@),
                ids_below(population@, self.current_id),
                since_emit < self.params.emit_result_every,
            invariant
                self.params == old(self).params,
                self.params.wf(),
                self.can_breed(),
                size == self.params.population_size,
                code_len == self.params.genetic_code_length,
                self.current_id >= old(self).current_id,
            ensures
                self.params == old(self).params,
                self.current_id >= old(self).current_id,
            decreases u64::MAX - self.current_id,
        {
            if self.current_id > u64::MAX - (size as u64) {
                break ;
            }
            let ghost pre_eval = population@;
            self.evaluate_fitness(&mut population);
            let ghost pre_sel = population@;
            proof {
                assert forall|t: int| 0 <= t < pre_sel.len() implies (#[trigger] pre_sel[t]).id
                    == pre_eval[t].id && pre_sel[t].genetic_code@.len() == code_len by {
                    assert(pre_sel[t].genetic_code@ == pre_eval[t].genetic_code@);
                }
                assert(codes_len_ok(pre_sel, code_len as nat));
                assert(ids_unique(pre_sel));
                assert(ids_below(pre_sel, self.current_id));
            }
            let best_id = self.select_population(&mut population);
            proof {
                let before = pop_models(pre_sel);
                assert forall|t: int| 0 <= t < population@.len() implies (
                #[trigger] population@[t]).genetic_code@.len() == code_len && population@[t].id
                    < self.current_id by {
                    assert(before.contains(pop_models(population@)[t]));
                    let k = choose|k: int|
                        0 <= k < before.len() && before[k] == pop_models(population@)[t];
                    assert(pre_sel[k].model() == population@[t].model());
                }
                assert(codes_len_ok(population@, code_len as nat));
                assert(ids_below(population@, self.current_id));
                assert(ids_unique(population@));
            }
            if since_emit == 0 {
                // Emit a snapshot of this generation's best cell; select
                // guarantees that it survived trimming.
                let mut best_at: usize = 0;
                let mut found = false;
                let mut j: usize = 0;
                while j < population.len()
                    invariant
                        j <= population@.len(),
                        found ==> best_at < population@.len() && population@[best_at as int].id
                            == best_id,
                        !found ==> forall|t: int|
                            0 <= t < j ==> (#[trigger] population@[t]).id != best_id,
                    decreases population@.len() - j,
                {
                    if population[j].id == best_id {
                        best_at = j;
                        found = true;
                    }
                    j += 1;
                }
                proof {
                    let after = pop_models(population@);
                    let s = choose|s: int| 0 <= s < after.len() && (#[trigger] after[s]).id
                        == best_id;
                    assert(population@[s].id == best_id);
                    assert(found);
                }
                let genes = clone_bytes(&population[best_at].genetic_code);
                let result = SimResult { genes, score: population[best_at].score };
                let delivered = send_result(&result_tx, result);
                if !delivered {
                    // The caller dropped the receiving end: nobody is
                    // listening any more.
                    break ;
                }
            }
            self.breed(&mut population);
            self.do_mutations(&mut population);
            since_emit += 1;
            if since_emit == self.params.emit_result_every {
                since_emit = 0;
            }
            match poll_stop(&stop_rx) {
                StopPoll::Received(signal) => {
                    if signal {
                        break ;
                    }
                },
                StopPoll::Disconnected => {
                    break ;
                },
                StopPoll::Empty => {},
            }
        }
    }
}

} // verus!
