//! The immutable settings of a search.
//!
//! Probabilities and shares are held in fixed point, as parts per million:
//! a mutation rate of one percent is `10_000`, an elite share of a tenth of a
//! percent is `1_000`.

use vstd::prelude::*;

verus! {

/// The value that stands for a probability of one, or for the whole
/// population.
pub const PER_MILLION: u32 = 1_000_000;

/// The settings of a search, fixed before it starts.
#[derive(Clone, Debug)]
pub struct Config {
    /// The byte string that the search evolves towards.
    pub target: Vec<u8>,
    /// The number of candidates in every generation.
    pub population_size: usize,
    /// The probability, in parts per million, that a gene is replaced.
    pub mutation_per_million: u32,
    /// The number of generations after which a bounded search gives up.
    pub generation_cap: u64,
    /// Whether the search goes on until a solution is found, whatever the cap.
    pub unbounded: bool,
    /// The share of the ranked population, in parts per million, that parents
    /// are selected from.
    pub elite_per_million: u32,
}

/// The size of the elite of a population: the given share of it, rounded up,
/// and never less than one candidate.
pub open spec fn elite_count(population_size: nat, elite_per_million: nat) -> nat {
    let parts = population_size * elite_per_million;
    let share = if parts % 1_000_000 == 0 {
        parts / 1_000_000
    } else {
        parts / 1_000_000 + 1
    };
    if share < 1 {
        1
    } else {
        share
    }
}

/// The rounded-up share is the least number of candidates that holds at
/// least the exact share.
pub proof fn lemma_elite_count_is_ceiling(population_size: nat, elite_per_million: nat)
    requires
        population_size * elite_per_million > 0,
    ensures
        elite_count(population_size, elite_per_million) * 1_000_000 >= population_size
            * elite_per_million,
        (elite_count(population_size, elite_per_million) - 1) * 1_000_000 < population_size
            * elite_per_million,
{
    let parts = population_size * elite_per_million;
    assert(parts == 1_000_000 * (parts / 1_000_000) + parts % 1_000_000) by (nonlinear_arith);
    assert(0 <= parts % 1_000_000 < 1_000_000);
}

/// The elite holds at least one candidate, and no more than the population
/// has (or one, for an empty population).
pub proof fn lemma_elite_count_bounds(population_size: nat, elite_per_million: nat)
    requires
        elite_per_million <= 1_000_000,
    ensures
        1 <= elite_count(population_size, elite_per_million),
        population_size >= 1 ==> elite_count(population_size, elite_per_million)
            <= population_size,
{
    let parts = population_size * elite_per_million;
    assert(parts <= population_size * 1_000_000) by (nonlinear_arith)
        requires
            parts == population_size * elite_per_million,
            elite_per_million <= 1_000_000,
    ;
    assert(parts == 1_000_000 * (parts / 1_000_000) + parts % 1_000_000) by (nonlinear_arith);
    assert(0 <= parts % 1_000_000 < 1_000_000);
}

/// Computes the size of the elite of a population.
pub fn elite_size(population_size: usize, elite_per_million: u32) -> (size: usize)
    requires
        elite_per_million <= PER_MILLION,
    ensures
        size == elite_count(population_size as nat, elite_per_million as nat),
        1 <= size,
        population_size >= 1 ==> size <= population_size,
{
    proof {
        lemma_elite_count_bounds(population_size as nat, elite_per_million as nat);
        assert(population_size * elite_per_million <= usize::MAX * 1_000_000) by (nonlinear_arith)
            requires
                elite_per_million <= 1_000_000,
                population_size <= usize::MAX,
        ;
    }
    let parts: u128 = (population_size as u128) * (elite_per_million as u128);
    let whole: u128 = parts / 1_000_000;
    let share: u128 = if parts % 1_000_000 == 0 {
        whole
    } else {
        whole + 1
    };
    if share < 1 {
        1
    } else {
        share as usize
    }
}

impl Config {
    /// The settings describe a search that can run: there is a population,
    /// the mutation rate is a probability, and the elite share is a positive
    /// fraction of the whole.
    pub open spec fn wf(&self) -> bool {
        &&& self.population_size >= 1
        &&& self.mutation_per_million <= PER_MILLION
        &&& 1 <= self.elite_per_million <= PER_MILLION
    }

    /// Tests whether the settings describe a search that can run.
    pub fn is_valid(&self) -> (valid: bool)
        ensures
            valid == self.wf(),
    {
        self.population_size >= 1 && self.mutation_per_million <= PER_MILLION
            && self.elite_per_million >= 1 && self.elite_per_million <= PER_MILLION
    }

    /// Whether a search that has reached `generation` is out of generations.
    pub open spec fn exhausted_at(&self, generation: nat) -> bool {
        !self.unbounded && generation >= self.generation_cap
    }
}

} // verus!
