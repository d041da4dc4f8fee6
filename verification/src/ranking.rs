//! Ranking: the population sorted by stored fitness, fittest first.
//!
//! The sort is stable, so candidates of equal fitness keep their order and
//! the front of the ranking is the first fittest candidate of the population.

use crate::agent::Agent;
use crate::selection::{is_first_best, ranked};
use rayon::slice::ParallelSliceMut;
use std::cmp::Ordering;
use vstd::prelude::*;

verus! {

/// The candidates of `population` that hold the given fitness, in their
/// order.
pub open spec fn with_fitness(population: Seq<Agent>, fitness: usize) -> Seq<Agent> {
    population.filter(|agent: Agent| agent.fitness == fitness)
}

/// `ranking` is the stable descending sort of `population`: it is ranked, and
/// for every fitness value the candidates that hold it are the same, in the
/// same order, as in `population`.
pub open spec fn is_ranking_of(ranking: Seq<Agent>, population: Seq<Agent>) -> bool {
    &&& ranking.len() == population.len()
    &&& ranked(ranking)
    &&& forall|fitness: usize| #[trigger]
        with_fitness(ranking, fitness) == with_fitness(population, fitness)
}

/// Orders two candidates for a descending ranking: the fitter one comes
/// first, and equally fit ones are equal.
pub fn descending_fitness(a: &Agent, b: &Agent) -> (order: Ordering)
    ensures
        order is Less <==> a.fitness > b.fitness,
        order is Equal <==> a.fitness == b.fitness,
        order is Greater <==> a.fitness < b.fitness,
{
    if a.fitness > b.fitness {
        Ordering::Less
    } else if a.fitness < b.fitness {
        Ordering::Greater
    } else {
        Ordering::Equal
    }
}

/// Sorts the population in parallel with `par_sort_by` of `rayon`, handing it
/// [`descending_fitness`] as the comparator.
///
/// Trusted, not proved: `par_sort_by` sorts the slice by the comparator and
/// is stable, that is, it does not reorder elements that compare equal. With
/// this comparator the result is ranked, and the candidates of each fitness
/// value keep their order.
#[verifier::external_body]
fn sort_by_fitness(population: &mut Vec<Agent>)
    ensures
        is_ranking_of(final(population)@, old(population)@),
{
    population.par_sort_by(|a, b| descending_fitness(a, b));
}

/// The first candidate with a given fitness is the first that a filter for
/// that fitness keeps.
proof fn lemma_first_kept(population: Seq<Agent>, fitness: usize, index: int)
    requires
        0 <= index < population.len(),
        population[index].fitness == fitness,
        forall|i: int| 0 <= i < index ==> population[i].fitness != fitness,
    ensures
        with_fitness(population, fitness).len() > 0,
        with_fitness(population, fitness)[0] == population[index],
    decreases index,
{
    let keep = |agent: Agent| agent.fitness == fitness;
    population.lemma_filter_eq_filter_alt(keep);
    if index > 0 {
        let rest = population.drop_first();
        assert(!keep(population[0]));
        assert forall|i: int| 0 <= i < index - 1 implies rest[i].fitness != fitness by {
            assert(rest[i] == population[i + 1]);
        }
        lemma_first_kept(rest, fitness, index - 1);
    }
}

/// Finds the first candidate with a given fitness, knowing that the
/// candidate at `index` has it.
proof fn first_index_with(population: Seq<Agent>, fitness: usize, index: int) -> (first: int)
    requires
        0 <= index < population.len(),
        population[index].fitness == fitness,
    ensures
        0 <= first <= index,
        population[first].fitness == fitness,
        forall|i: int| 0 <= i < first ==> population[i].fitness != fitness,
    decreases index,
{
    if exists|i: int| 0 <= i < index && population[i].fitness == fitness {
        let earlier = choose|i: int| 0 <= i < index && population[i].fitness == fitness;
        first_index_with(population, fitness, earlier)
    } else {
        index
    }
}

/// Every candidate of the population stands somewhere in its ranking, and
/// every candidate of the ranking comes from the population.
pub proof fn lemma_ranking_members(ranking: Seq<Agent>, population: Seq<Agent>)
    requires
        is_ranking_of(ranking, population),
    ensures
        forall|i: int| 0 <= i < population.len() ==> ranking.contains(#[trigger] population[i]),
        forall|i: int| 0 <= i < ranking.len() ==> population.contains(#[trigger] ranking[i]),
{
    assert forall|i: int| 0 <= i < population.len() implies ranking.contains(
        #[trigger] population[i],
    ) by {
        lemma_kept_elsewhere(population, ranking, i);
    }
    assert forall|i: int| 0 <= i < ranking.len() implies population.contains(
        #[trigger] ranking[i],
    ) by {
        lemma_kept_elsewhere(ranking, population, i);
    }
}

/// A candidate of `from` is also in `to` when filtering the two for its
/// fitness gives the same.
proof fn lemma_kept_elsewhere(from: Seq<Agent>, to: Seq<Agent>, index: int)
    requires
        0 <= index < from.len(),
        with_fitness(from, from[index].fitness) == with_fitness(to, from[index].fitness),
    ensures
        to.contains(from[index]),
{
    let fitness = from[index].fitness;
    let keep = |agent: Agent| agent.fitness == fitness;
    assert(keep(from[index]));
    from.lemma_filter_contains(keep, index);
    to.lemma_filter_contains_rev(keep, from[index]);
}

/// The front of a ranking is the first fittest candidate of the population.
pub proof fn lemma_ranking_front(ranking: Seq<Agent>, population: Seq<Agent>)
    requires
        is_ranking_of(ranking, population),
        population.len() > 0,
    ensures
        exists|index: int| #[trigger]
            is_first_best(population, population.len() as int, index) && ranking[0]
                == population[index],
{
    let top = ranking[0].fitness;
    let keep = |agent: Agent| agent.fitness == top;
    lemma_first_kept(ranking, top, 0);
    assert(with_fitness(ranking, top) == with_fitness(population, top));
    let kept = with_fitness(population, top)[0];
    population.lemma_filter_pred(keep, 0);
    assert(population.filter(keep).contains(kept));
    population.lemma_filter_contains_rev(keep, kept);
    let somewhere = choose|i: int| 0 <= i < population.len() && population[i] == kept;
    let index = first_index_with(population, top, somewhere);
    lemma_first_kept(population, top, index);
    lemma_ranking_members(ranking, population);
    assert forall|i: int| 0 <= i < population.len() implies population[i].fitness
        <= population[index].fitness by {
        assert(ranking.contains(population[i]));
        let place = choose|r: int| 0 <= r < ranking.len() && ranking[r] == population[i];
        assert(ranking[0].fitness >= ranking[place].fitness);
    }
    assert(is_first_best(population, population.len() as int, index));
}

/// Ranks the population: sorts it by stored fitness, fittest first, keeping
/// the order of equally fit candidates. The candidates are the same as
/// before, and the one at the front is the first fittest of them.
pub fn rank(population: &mut Vec<Agent>)
    ensures
        is_ranking_of(final(population)@, old(population)@),
        forall|i: int|
            0 <= i < old(population)@.len() ==> final(population)@.contains(
                #[trigger] old(population)@[i],
            ),
        forall|i: int|
            0 <= i < final(population)@.len() ==> old(population)@.contains(
                #[trigger] final(population)@[i],
            ),
        old(population)@.len() > 0 ==> exists|index: int| #[trigger]
            is_first_best(old(population)@, old(population)@.len() as int, index)
                && final(population)@[0] == old(population)@[index],
{
    sort_by_fitness(population);
    proof {
        lemma_ranking_members(population@, old(population)@);
        if old(population)@.len() > 0 {
            lemma_ranking_front(population@, old(population)@);
        }
    }
}

} // verus!
