//! The reproduction phase of a generation: every slot of the next population
//! is filled, in parallel, with a child bred from two selected parents.

use crate::agent::{Agent, AgentView};
use crate::config::{elite_count, lemma_elite_count_bounds, PER_MILLION};
use crate::crossover::{crossover, is_crossover_point, lemma_spliced_identical, spliced};
use crate::mutation::{
    can_be_drawn, lemma_mutation_preserves_wf, lemma_untouched_keeps, mutate, mutated,
};
use crate::selection::{
    is_selected, lemma_first_best_exists, lemma_first_best_unique, lemma_ranked_selects_front,
    ranked, select,
};
use rayon::iter::{IntoParallelIterator, ParallelIterator};
use vstd::prelude::*;

verus! {

/// The child of two gene sequences: cut at `point`, then rewritten as
/// `replacements` says.
pub open spec fn bred(
    first: Seq<u8>,
    second: Seq<u8>,
    point: int,
    replacements: Seq<Option<u8>>,
) -> AgentView {
    mutated(AgentView::unscored(spliced(first, second, point)), replacements)
}

/// `child` can be bred in `population`: both its parents are the selected
/// candidate, and some crossover point and some replacements that can be
/// drawn lead from them to the child.
pub open spec fn is_offspring(
    child: AgentView,
    population: Seq<Agent>,
    elite_per_million: u32,
    mutation_per_million: u32,
) -> bool {
    exists|parent: int, point: int, replacements: Seq<Option<u8>>|
        is_selected(population, elite_per_million, parent) && is_crossover_point(
            point,
            population[parent].genes@.len(),
        ) && can_be_drawn(replacements, population[parent].genes@.len(), mutation_per_million)
            && child == #[trigger] bred(
            population[parent].genes@,
            population[parent].genes@,
            point,
            replacements,
        )
}

/// `child` is a mutated copy of `genes`: some replacements that can be drawn
/// lead from the unscored genes to it.
pub open spec fn descends_from(
    child: AgentView,
    genes: Seq<u8>,
    mutation_per_million: u32,
) -> bool {
    exists|replacements: Seq<Option<u8>>|
        can_be_drawn(replacements, genes.len(), mutation_per_million) && child
            == #[trigger] mutated(AgentView::unscored(genes), replacements)
}

/// A child's two parents are one candidate, so the crossover point does not
/// matter: every child is a mutated copy of the selected candidate.
pub proof fn lemma_offspring_descends(
    child: AgentView,
    population: Seq<Agent>,
    elite_per_million: u32,
    mutation_per_million: u32,
    parent: int,
)
    requires
        is_offspring(child, population, elite_per_million, mutation_per_million),
        is_selected(population, elite_per_million, parent),
    ensures
        descends_from(child, population[parent].genes@, mutation_per_million),
{
    let (chosen, point, replacements) = choose|
        chosen: int,
        point: int,
        replacements: Seq<Option<u8>>,
    |
        is_selected(population, elite_per_million, chosen) && is_crossover_point(
            point,
            population[chosen].genes@.len(),
        ) && can_be_drawn(replacements, population[chosen].genes@.len(), mutation_per_million)
            && child == #[trigger] bred(
            population[chosen].genes@,
            population[chosen].genes@,
            point,
            replacements,
        );
    lemma_first_best_unique(
        population,
        elite_count(population.len(), elite_per_million as nat) as int,
        chosen,
        parent,
    );
    lemma_spliced_identical(population[parent].genes@, point);
    assert(child == mutated(AgentView::unscored(population[parent].genes@), replacements));
}

/// A mutated copy of `genes` has as many genes, is well-formed for every
/// target of that length, and is never scored.
pub proof fn lemma_descendant_wf(
    child: AgentView,
    genes: Seq<u8>,
    mutation_per_million: u32,
    target: Seq<u8>,
)
    requires
        descends_from(child, genes, mutation_per_million),
        genes.len() == target.len(),
    ensures
        child.genes.len() == genes.len(),
        child.wf(target),
        !child.calculated,
        child.fitness == 0,
{
    let replacements = choose|replacements: Seq<Option<u8>>|
        can_be_drawn(replacements, genes.len(), mutation_per_million) && child
            == #[trigger] mutated(AgentView::unscored(genes), replacements);
    lemma_mutation_preserves_wf(AgentView::unscored(genes), replacements, target);
}

/// Without mutation a child is an unscored copy of its parent, whatever
/// crossover point is drawn.
pub proof fn lemma_descendant_without_mutation(child: AgentView, genes: Seq<u8>)
    requires
        descends_from(child, genes, 0),
    ensures
        child == AgentView::unscored(genes),
{
    let replacements = choose|replacements: Seq<Option<u8>>|
        can_be_drawn(replacements, genes.len(), 0) && child == #[trigger] mutated(
            AgentView::unscored(genes),
            replacements,
        );
    lemma_untouched_keeps(AgentView::unscored(genes), replacements);
}

/// Breeds one child: selects two parents from the population, crosses them
/// at a random point, and mutates the result.
pub fn breed(population: &[Agent], elite_per_million: u32, mutation_per_million: u32) -> (child:
    Agent)
    requires
        population@.len() > 0,
        elite_per_million <= PER_MILLION,
        mutation_per_million <= PER_MILLION,
    ensures
        is_offspring(child@, population@, elite_per_million, mutation_per_million),
{
    let parent1 = select(population, elite_per_million);
    let parent2 = select(population, elite_per_million);
    let ghost first = choose|index: int|
        #[trigger] is_selected(population@, elite_per_million, index) && *parent1
            == population@[index];
    let ghost second = choose|index: int|
        #[trigger] is_selected(population@, elite_per_million, index) && *parent2
            == population@[index];
    proof {
        lemma_first_best_unique(
            population@,
            elite_count(population@.len(), elite_per_million as nat) as int,
            first,
            second,
        );
    }
    let mut child = crossover(parent1, parent2);
    let ghost crossed = child@;
    let ghost point = choose|point: int|
        is_crossover_point(point, parent1.genes@.len()) && crossed == AgentView::unscored(
            #[trigger] spliced(parent1.genes@, parent2.genes@, point),
        );
    mutate(&mut child, mutation_per_million);
    proof {
        let replacements = choose|replacements: Seq<Option<u8>>|
            can_be_drawn(replacements, crossed.genes.len(), mutation_per_million) && child@
                == #[trigger] mutated(crossed, replacements);
        assert(child@ == bred(
            population@[first].genes@,
            population@[first].genes@,
            point,
            replacements,
        ));
    }
    child
}

/// Every child can be bred in the population.
pub open spec fn all_offspring(
    children: Seq<Agent>,
    population: Seq<Agent>,
    elite_per_million: u32,
    mutation_per_million: u32,
) -> bool {
    forall|i: int|
        0 <= i < children.len() ==> is_offspring(
            (#[trigger] children[i])@,
            population,
            elite_per_million,
            mutation_per_million,
        )
}

/// Every child is a mutated copy of `genes`.
pub open spec fn all_descend_from(
    children: Seq<Agent>,
    genes: Seq<u8>,
    mutation_per_million: u32,
) -> bool {
    forall|i: int|
        0 <= i < children.len() ==> descends_from(
            (#[trigger] children[i])@,
            genes,
            mutation_per_million,
        )
}

/// Without mutation a generation is determined by its parent alone: every
/// child is an unscored copy of it, whatever crossover points are drawn.
pub proof fn lemma_generation_without_mutation(children: Seq<Agent>, genes: Seq<u8>)
    requires
        all_descend_from(children, genes, 0),
    ensures
        forall|i: int|
            0 <= i < children.len() ==> (#[trigger] children[i])@ == AgentView::unscored(genes),
{
    assert forall|i: int| 0 <= i < children.len() implies (#[trigger] children[i])@
        == AgentView::unscored(genes) by {
        lemma_descendant_without_mutation(children[i]@, genes);
    }
}

/// Breeds `count` children with `into_par_iter().map(..).collect()` of
/// `rayon` over the range `0..count`, handing `map` a closure that calls
/// [`breed`].
///
/// Trusted, not proved: `map` calls the closure once for each index of the
/// range and `collect` gathers the results into a vector of as many
/// elements. Every element is therefore a child that [`breed`] returned.
#[verifier::external_body]
fn breed_each(
    population: &[Agent],
    count: usize,
    elite_per_million: u32,
    mutation_per_million: u32,
) -> (children: Vec<Agent>)
    requires
        population@.len() > 0,
        elite_per_million <= PER_MILLION,
        mutation_per_million <= PER_MILLION,
    ensures
        children@.len() == count,
        all_offspring(children@, population@, elite_per_million, mutation_per_million),
{
    (0..count).into_par_iter().map(
        |_| breed(population, elite_per_million, mutation_per_million),
    ).collect()
}

/// Breeds the next population: `count` children, each bred from the given
/// population independently of the others. All of them are mutated copies of
/// the one candidate that selection picks, which in a ranked population is
/// the candidate at the front.
pub fn reproduce(
    population: &[Agent],
    count: usize,
    elite_per_million: u32,
    mutation_per_million: u32,
) -> (children: Vec<Agent>)
    requires
        population@.len() > 0,
        elite_per_million <= PER_MILLION,
        mutation_per_million <= PER_MILLION,
    ensures
        children@.len() == count,
        all_offspring(children@, population@, elite_per_million, mutation_per_million),
        exists|parent: int| #[trigger]
            is_selected(population@, elite_per_million, parent) && all_descend_from(
                children@,
                population@[parent].genes@,
                mutation_per_million,
            ),
        ranked(population@) ==> all_descend_from(
            children@,
            population@[0].genes@,
            mutation_per_million,
        ),
{
    let children = breed_each(population, count, elite_per_million, mutation_per_million);
    proof {
        lemma_elite_count_bounds(population@.len(), elite_per_million as nat);
        let parent = lemma_first_best_exists(
            population@,
            elite_count(population@.len(), elite_per_million as nat) as int,
        );
        assert forall|i: int| 0 <= i < children@.len() implies descends_from(
            (#[trigger] children@[i])@,
            population@[parent].genes@,
            mutation_per_million,
        ) by {
            lemma_offspring_descends(
                children@[i]@,
                population@,
                elite_per_million,
                mutation_per_million,
                parent,
            );
        }
        assert(is_selected(population@, elite_per_million, parent));
        if ranked(population@) {
            lemma_ranked_selects_front(
                population@,
                elite_count(population@.len(), elite_per_million as nat) as int,
                parent,
            );
        }
    }
    children
}

} // verus!
