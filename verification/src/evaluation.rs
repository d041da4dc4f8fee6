//! The evaluation phase of a generation: every candidate is scored, in
//! parallel, and the population is searched for an exact solution.

use crate::agent::{lemma_evaluated_wf, lemma_solver_iff_target, Agent};
use crate::fitness::{lemma_score_bounded, score};
use crate::selection::is_first_best;
use rayon::iter::{IntoParallelRefMutIterator, ParallelIterator};
use vstd::prelude::*;

verus! {

/// Every candidate of the population is well-formed for the target.
pub open spec fn all_wf(population: Seq<Agent>, target: Seq<u8>) -> bool {
    forall|i: int| 0 <= i < population.len() ==> (#[trigger] population[i])@.wf(target)
}

/// `scored` is `population` after the evaluation of every candidate: each
/// stands at its old place, as one evaluation leaves it.
pub open spec fn is_evaluation_of(
    scored: Seq<Agent>,
    population: Seq<Agent>,
    target: Seq<u8>,
) -> bool {
    &&& scored.len() == population.len()
    &&& forall|i: int|
        0 <= i < scored.len() ==> (#[trigger] scored[i])@ == population[i]@.evaluated(target)
}

/// Every candidate of the population is scored: its cache is valid and holds
/// the score of its genes.
pub open spec fn all_scored(population: Seq<Agent>, target: Seq<u8>) -> bool {
    forall|i: int|
        0 <= i < population.len() ==> (#[trigger] population[i]).calculated
            && population[i].fitness == score(population[i].genes@, target)
}

/// `index` is the first candidate whose stored fitness is `full`.
pub open spec fn is_first_solver(population: Seq<Agent>, full: nat, index: int) -> bool {
    &&& 0 <= index < population.len()
    &&& population[index].fitness == full
    &&& forall|i: int| 0 <= i < index ==> population[i].fitness != full
}

/// No candidate has the stored fitness `full`.
pub open spec fn no_solver(population: Seq<Agent>, full: nat) -> bool {
    forall|i: int| 0 <= i < population.len() ==> population[i].fitness != full
}

/// `best` is the highest stored fitness in the population, and zero for an
/// empty population.
pub open spec fn is_best_fitness(population: Seq<Agent>, best: nat) -> bool {
    &&& forall|i: int| 0 <= i < population.len() ==> population[i].fitness <= best
    &&& population.len() == 0 ==> best == 0
    &&& population.len() > 0 ==> exists|i: int|
        0 <= i < population.len() && population[i].fitness == best
}

/// `index` is the first candidate whose genes are the target.
pub open spec fn is_first_match(population: Seq<Agent>, target: Seq<u8>, index: int) -> bool {
    &&& 0 <= index < population.len()
    &&& population[index]@.solves(target)
    &&& forall|i: int| 0 <= i < index ==> !(#[trigger] population[i])@.solves(target)
}

/// No candidate's genes are the target.
pub open spec fn no_match(population: Seq<Agent>, target: Seq<u8>) -> bool {
    forall|i: int| 0 <= i < population.len() ==> !(#[trigger] population[i])@.solves(target)
}

/// A population has at most one first match.
pub proof fn lemma_first_match_unique(population: Seq<Agent>, target: Seq<u8>, a: int, b: int)
    requires
        is_first_match(population, target, a),
        is_first_match(population, target, b),
    ensures
        a == b,
{
    if a < b {
        assert(!population[a]@.solves(target));
    }
    if b < a {
        assert(!population[b]@.solves(target));
    }
}

/// `index` is the champion of the population: the first of the candidates
/// whose genes score highest against the target.
pub open spec fn is_champion(population: Seq<Agent>, target: Seq<u8>, index: int) -> bool {
    &&& 0 <= index < population.len()
    &&& forall|i: int|
        0 <= i < population.len() ==> score((#[trigger] population[i]).genes@, target) <= score(
            population[index].genes@,
            target,
        )
    &&& forall|i: int|
        0 <= i < index ==> score((#[trigger] population[i]).genes@, target) < score(
            population[index].genes@,
            target,
        )
}

/// After the evaluation of a well-formed population every candidate stores
/// the score of its genes, which are the genes it had before.
pub proof fn lemma_scored(scored: Seq<Agent>, population: Seq<Agent>, target: Seq<u8>)
    requires
        all_wf(population, target),
        is_evaluation_of(scored, population, target),
    ensures
        all_wf(scored, target),
        all_scored(scored, target),
        forall|i: int|
            0 <= i < scored.len() ==> (#[trigger] scored[i]).genes@ == population[i].genes@,
        forall|i: int|
            0 <= i < scored.len() ==> (#[trigger] scored[i]).fitness == score(
                population[i].genes@,
                target,
            ),
        forall|i: int| 0 <= i < scored.len() ==> (#[trigger] scored[i]).calculated,
{
    assert forall|i: int| 0 <= i < scored.len() implies (#[trigger] scored[i])@.wf(target)
        && scored[i].genes@ == population[i].genes@ && scored[i].fitness == score(
        population[i].genes@,
        target,
    ) && scored[i].calculated by {
        assert(population[i]@.wf(target));
        lemma_evaluated_wf(population[i]@, target);
    }
}

/// In the evaluation of a well-formed population, the first candidate that
/// stores a full score is the first whose genes are the target, and it is the
/// first best candidate of all.
pub proof fn lemma_first_solver_matches(
    scored: Seq<Agent>,
    population: Seq<Agent>,
    target: Seq<u8>,
    index: int,
)
    requires
        all_wf(population, target),
        is_evaluation_of(scored, population, target),
        is_first_solver(scored, target.len(), index),
    ensures
        is_first_match(population, target, index),
        is_first_match(scored, target, index),
        is_first_best(scored, scored.len() as int, index),
{
    lemma_scored(scored, population, target);
    assert forall|i: int| 0 <= i < scored.len() implies (#[trigger] scored[i]).fitness
        <= target.len() && (scored[i].fitness == target.len() <==> population[i]@.solves(
        target,
    )) by {
        assert(population[i]@.wf(target));
        lemma_solver_iff_target(population[i]@, target);
        lemma_score_bounded(population[i].genes@, target);
    }
    assert forall|i: int| 0 <= i < index implies !(#[trigger] population[i])@.solves(target) by {
        assert(scored[i].fitness != target.len());
    }
    assert forall|i: int| 0 <= i < index implies !(#[trigger] scored[i])@.solves(target) by {
        assert(!population[i]@.solves(target));
    }
}

/// In the evaluation of a well-formed population, no candidate's genes are
/// the target if none stores a full score.
pub proof fn lemma_no_solver_no_match(
    scored: Seq<Agent>,
    population: Seq<Agent>,
    target: Seq<u8>,
)
    requires
        all_wf(population, target),
        is_evaluation_of(scored, population, target),
        no_solver(scored, target.len()),
    ensures
        no_match(population, target),
{
    assert forall|i: int| 0 <= i < population.len() implies !(#[trigger] population[i])@.solves(
        target,
    ) by {
        assert(scored[i].fitness != target.len());
        assert(population[i]@.wf(target));
        lemma_solver_iff_target(population[i]@, target);
    }
}

/// In the evaluation of a well-formed population, the first best candidate
/// by stored fitness is the champion, and the highest stored fitness is the
/// champion's score.
pub proof fn lemma_first_best_is_champion(
    scored: Seq<Agent>,
    population: Seq<Agent>,
    target: Seq<u8>,
    index: int,
    best: nat,
)
    requires
        all_wf(population, target),
        is_evaluation_of(scored, population, target),
        is_first_best(scored, scored.len() as int, index),
        is_best_fitness(scored, best),
    ensures
        is_champion(population, target, index),
        best == score(population[index].genes@, target),
        scored[index].genes@ == population[index].genes@,
{
    lemma_scored(scored, population, target);
    assert forall|i: int| 0 <= i < population.len() implies score(
        (#[trigger] population[i]).genes@,
        target,
    ) <= score(population[index].genes@, target) by {
        assert(scored[i].fitness <= scored[index].fitness);
    }
    assert forall|i: int| 0 <= i < index implies score((#[trigger] population[i]).genes@, target)
        < score(population[index].genes@, target) by {
        assert(scored[i].fitness < scored[index].fitness);
    }
    let holder = choose|i: int| 0 <= i < scored.len() && scored[i].fitness == best;
    assert(scored[holder].fitness <= scored[index].fitness);
    assert(scored[index].fitness <= best);
}

/// What the evaluation of a generation found.
#[derive(Clone, Copy, Debug)]
pub struct Evaluation {
    /// The highest fitness in the generation.
    pub best_fitness: usize,
    /// The first candidate that scores the full length of the target, if
    /// there is one.
    pub solver: Option<usize>,
}

/// Evaluates every candidate with `par_iter_mut().for_each` of `rayon`,
/// handing it a closure that calls [`Agent::calculate_fitness`].
///
/// Trusted, not proved: `for_each` runs the closure once on each element of
/// the vector, and changes nothing else. Every candidate is therefore left as
/// one evaluation leaves it, at its old place.
#[verifier::external_body]
fn evaluate_each(population: &mut Vec<Agent>, target: &[u8])
    ensures
        is_evaluation_of(final(population)@, old(population)@, target@),
{
    population.par_iter_mut().for_each(
        |individual| {
            individual.calculate_fitness(target);
        },
    );
}

/// Scores every candidate of the population against `target` and reports
/// the highest fitness and the first candidate, if any, that matches the
/// target in full.
pub fn evaluate_population(population: &mut Vec<Agent>, target: &[u8]) -> (found: Evaluation)
    ensures
        is_evaluation_of(final(population)@, old(population)@, target@),
        is_best_fitness(final(population)@, found.best_fitness as nat),
        match found.solver {
            Some(index) => is_first_solver(final(population)@, target@.len(), index as int),
            None => no_solver(final(population)@, target@.len()),
        },
        all_wf(old(population)@, target@) ==> all_wf(final(population)@, target@),
        all_wf(old(population)@, target@) ==> all_scored(final(population)@, target@),
{
    evaluate_each(population, target);
    proof {
        if all_wf(old(population)@, target@) {
            lemma_scored(population@, old(population)@, target@);
        }
    }
    let full: usize = target.len();
    let mut best_fitness: usize = 0;
    let mut solver: Option<usize> = None;
    let mut i: usize = 0;
    while i < population.len()
        invariant
            i <= population@.len(),
            full == target@.len(),
            forall|j: int| 0 <= j < i ==> population@[j].fitness <= best_fitness,
            i == 0 ==> best_fitness == 0,
            i > 0 ==> exists|j: int| 0 <= j < i && population@[j].fitness == best_fitness,
            match solver {
                Some(index) => is_first_solver(population@, full as nat, index as int),
                None => forall|j: int| 0 <= j < i ==> population@[j].fitness != full,
            },
        decreases population@.len() - i,
    {
        let fitness: usize = population[i].fitness;
        if fitness > best_fitness || i == 0 {
            best_fitness = fitness;
        }
        if solver.is_none() && fitness == full {
            solver = Some(i);
        }
        i = i + 1;
    }
    Evaluation { best_fitness, solver }
}

} // verus!
