//! Parent selection: the fittest candidate of the elite, the leading share of
//! a ranked population.
//!
//! Ties are broken towards the front: of several candidates with the highest
//! fitness in the elite, the one at the lowest index is selected. In a ranked
//! population that is always the candidate at index 0, so that both parents
//! of every child are the same candidate.

use crate::agent::Agent;
use crate::config::{elite_count, elite_size, PER_MILLION};
use vstd::prelude::*;

verus! {

/// The population is ranked: its stored fitness values never rise from front
/// to back.
pub open spec fn ranked(population: Seq<Agent>) -> bool {
    forall|i: int, j: int|
        0 <= i <= j < population.len() ==> population[i].fitness >= population[j].fitness
}

/// `index` is the first among the leading `size` candidates that no other of
/// them beats.
pub open spec fn is_first_best(population: Seq<Agent>, size: int, index: int) -> bool {
    &&& 0 <= index < size <= population.len()
    &&& forall|i: int| 0 <= i < size ==> population[i].fitness <= population[index].fitness
    &&& forall|i: int| 0 <= i < index ==> population[i].fitness < population[index].fitness
}

/// The index that selection picks in `population` for the given elite share.
pub open spec fn is_selected(population: Seq<Agent>, elite_per_million: u32, index: int) -> bool {
    is_first_best(
        population,
        elite_count(population.len(), elite_per_million as nat) as int,
        index,
    )
}

/// Among the leading candidates of a population there is a first best one.
pub proof fn lemma_first_best_exists(population: Seq<Agent>, size: int) -> (index: int)
    requires
        0 < size <= population.len(),
    ensures
        is_first_best(population, size, index),
    decreases size,
{
    if size == 1 {
        0
    } else {
        let earlier = lemma_first_best_exists(population, size - 1);
        if population[size - 1].fitness > population[earlier].fitness {
            size - 1
        } else {
            earlier
        }
    }
}

/// There is only one first best candidate.
pub proof fn lemma_first_best_unique(population: Seq<Agent>, size: int, a: int, b: int)
    requires
        is_first_best(population, size, a),
        is_first_best(population, size, b),
    ensures
        a == b,
{
    if a < b {
        assert(population[a].fitness < population[b].fitness);
        assert(population[b].fitness <= population[a].fitness);
    }
    if b < a {
        assert(population[b].fitness < population[a].fitness);
        assert(population[a].fitness <= population[b].fitness);
    }
}

/// In a ranked population the first best candidate of any leading share is
/// the one at the front.
pub proof fn lemma_ranked_selects_front(population: Seq<Agent>, size: int, index: int)
    requires
        ranked(population),
        is_first_best(population, size, index),
    ensures
        index == 0,
{
    if index > 0 {
        assert(population[0].fitness < population[index].fitness);
        assert(population[0].fitness >= population[index].fitness);
    }
}

/// Finds the index of the candidate that selection picks.
pub fn select_index(population: &[Agent], elite_per_million: u32) -> (index: usize)
    requires
        population@.len() > 0,
        elite_per_million <= PER_MILLION,
    ensures
        is_selected(population@, elite_per_million, index as int),
        ranked(population@) ==> index == 0,
{
    let size: usize = elite_size(population.len(), elite_per_million);
    let mut best: usize = 0;
    let mut i: usize = 1;
    while i < size
        invariant
            1 <= i <= size <= population@.len(),
            is_first_best(population@, i as int, best as int),
        decreases size - i,
    {
        if population[i].fitness > population[best].fitness {
            best = i;
        }
        i = i + 1;
    }
    proof {
        if ranked(population@) {
            lemma_ranked_selects_front(population@, size as int, best as int);
        }
    }
    best
}

/// Selects a parent: the fittest candidate among the elite of `population`,
/// the first of them where several are equally fit. An empty population has
/// no candidate to select and is not accepted.
pub fn select<'a>(population: &'a [Agent], elite_per_million: u32) -> (chosen: &'a Agent)
    requires
        population@.len() > 0,
        elite_per_million <= PER_MILLION,
    ensures
        exists|index: int|
            #[trigger] is_selected(population@, elite_per_million, index) && *chosen
                == population@[index],
        ranked(population@) ==> *chosen == population@[0],
        ranked(population@) ==> chosen.fitness == population@[0].fitness,
{
    let index: usize = select_index(population, elite_per_million);
    &population[index]
}

} // verus!
