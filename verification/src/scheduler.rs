//! The generational scheduler: it owns the population and drives it through
//! evaluation, ranking and reproduction, generation after generation, until a
//! candidate matches the target or the generations run out.

use crate::agent::{Agent, AgentView};
use crate::breeding::{all_descend_from, descends_from, lemma_descendant_wf, reproduce};
use crate::config::Config;
use crate::evaluation::{
    all_scored, all_wf, evaluate_population, is_champion, is_evaluation_of, is_first_match,
    lemma_first_best_is_champion, lemma_first_solver_matches, lemma_no_solver_no_match,
    lemma_scored, no_match,
};
use crate::fitness::score;
use crate::ranking::rank;
use crate::selection::is_first_best;
use rayon::iter::{IntoParallelIterator, ParallelIterator};
use vstd::prelude::*;

verus! {

/// A search in progress.
#[derive(Clone, Debug)]
pub struct Scheduler {
    /// The settings of the search.
    pub config: Config,
    /// The current generation of candidates.
    pub population: Vec<Agent>,
    /// The index of the current generation, counted from zero.
    pub generation: u64,
    /// The highest fitness in the generation evaluated last, and zero before
    /// any evaluation. It is kept for observation only.
    pub best_fitness: usize,
}

/// How a generation ended.
#[derive(Clone, Copy, Debug, PartialEq, Eq, Structural)]
pub enum Outcome {
    /// No candidate matched the target. The generation was replaced by its
    /// children and the search goes on.
    Advanced,
    /// The candidate at `index` of the population matches the target. It was
    /// found in `generation`, and the population was left in place.
    Solved { generation: u64, index: usize },
    /// No candidate matched the target, the generation was replaced by its
    /// children, and there is no generation left to go on with.
    Exhausted,
}

/// Every candidate is unscored and has `length` genes.
pub open spec fn all_fresh(population: Seq<Agent>, length: nat) -> bool {
    forall|i: int|
        0 <= i < population.len() ==> (#[trigger] population[i])@ == AgentView::unscored(
            population[i].genes@,
        ) && population[i].genes@.len() == length
}

/// `children` are a generation bred under `config` from `parents`: the
/// parents were a well-formed population of the configured size in which no
/// candidate matched the target, `champion` was their champion, and every
/// child is a mutated copy of it.
pub open spec fn is_bred_from(
    children: Seq<Agent>,
    parents: Seq<Agent>,
    champion: int,
    config: Config,
) -> bool {
    &&& parents.len() == config.population_size
    &&& all_wf(parents, config.target@)
    &&& no_match(parents, config.target@)
    &&& is_champion(parents, config.target@, champion)
    &&& all_descend_from(children, parents[champion].genes@, config.mutation_per_million)
}

/// Creates `count` candidates with `into_par_iter().map(..).collect()` of
/// `rayon` over the range `0..count`, handing `map` a closure that calls
/// [`Agent::new`].
///
/// Trusted, not proved: `map` calls the closure once for each index of the
/// range and `collect` gathers the results into a vector of as many
/// elements. Every element is therefore a candidate that [`Agent::new`]
/// returned.
#[verifier::external_body]
fn spawn_each(count: usize, length: usize) -> (population: Vec<Agent>)
    ensures
        population@.len() == count,
        all_fresh(population@, length as nat),
{
    (0..count).into_par_iter().map(|_| Agent::new(length)).collect()
}

impl Scheduler {
    /// The search is well-formed: its settings are, the population has the
    /// configured size, and every candidate is well-formed for the target.
    pub open spec fn wf(&self) -> bool {
        &&& self.config.wf()
        &&& self.population@.len() == self.config.population_size
        &&& all_wf(self.population@, self.config.target@)
    }

    /// The search stands right after a reproduction: its population was bred
    /// from the generation before, in which no candidate matched the target,
    /// and `best_fitness` is the score of that generation's champion.
    pub open spec fn is_bred_generation(&self) -> bool {
        exists|parents: Seq<Agent>, champion: int|
            #[trigger] is_bred_from(self.population@, parents, champion, self.config)
                && self.best_fitness == score(parents[champion].genes@, self.config.target@)
    }

    /// The search stands right after the evaluation of a bred generation:
    /// its population is what evaluation made of children that were bred from
    /// the generation before.
    pub open spec fn is_evaluated_offspring(&self) -> bool {
        exists|children: Seq<Agent>, parents: Seq<Agent>, champion: int|
            #[trigger] is_bred_from(children, parents, champion, self.config)
                && is_evaluation_of(self.population@, children, self.config.target@)
    }

    /// The search stands at a solution: the candidate at `index` is the first
    /// whose genes are the target, every candidate is scored, and the
    /// highest fitness is the full length of the target.
    pub open spec fn is_solved_at(&self, index: int) -> bool {
        &&& is_first_match(self.population@, self.config.target@, index)
        &&& all_scored(self.population@, self.config.target@)
        &&& self.best_fitness == self.config.target@.len()
    }

    /// Starts a search at generation zero with a population of randomly
    /// drawn candidates.
    pub fn new(config: Config) -> (scheduler: Scheduler)
        requires
            config.wf(),
        ensures
            scheduler.wf(),
            scheduler.config == config,
            scheduler.generation == 0,
            scheduler.best_fitness == 0,
            all_fresh(scheduler.population@, config.target@.len()),
    {
        let population = spawn_each(config.population_size, config.target.len());
        Scheduler { config, population, generation: 0, best_fitness: 0 }
    }

    /// Tests whether the search is well-formed.
    pub fn is_valid(&self) -> (valid: bool)
        ensures
            valid == self.wf(),
    {
        if !self.config.is_valid() || self.population.len() != self.config.population_size {
            return false;
        }
        let mut i: usize = 0;
        while i < self.population.len()
            invariant
                i <= self.population@.len(),
                forall|j: int|
                    0 <= j < i ==> (#[trigger] self.population@[j])@.wf(self.config.target@),
            decreases self.population@.len() - i,
        {
            if !self.population[i].is_valid_for(self.config.target.as_slice()) {
                return false;
            }
            i = i + 1;
        }
        true
    }

    /// Runs one generation.
    ///
    /// Every candidate is evaluated. If one of them matches the target, the
    /// first such candidate is reported and nothing else happens. Otherwise
    /// the population is ranked and replaced by as many children, each a
    /// mutated copy of the champion; the generation counter goes up by one,
    /// and the search is exhausted if it is bounded and the counter has
    /// reached the cap.
    pub fn step(&mut self) -> (outcome: Outcome)
        requires
            old(self).wf(),
            old(self).generation < u64::MAX,
        ensures
            final(self).wf(),
            final(self).config == old(self).config,
            exists|champion: int|
                is_champion(old(self).population@, old(self).config.target@, champion)
                    && final(self).best_fitness == score(
                    old(self).population@[champion].genes@,
                    old(self).config.target@,
                ) && (outcome !is Solved ==> all_descend_from(
                    final(self).population@,
                    old(self).population@[champion].genes@,
                    old(self).config.mutation_per_million,
                )),
            match outcome {
                Outcome::Solved { generation, index } => {
                    &&& is_first_match(
                        old(self).population@,
                        old(self).config.target@,
                        index as int,
                    )
                    &&& generation == old(self).generation
                    &&& final(self).generation == old(self).generation
                    &&& is_evaluation_of(
                        final(self).population@,
                        old(self).population@,
                        old(self).config.target@,
                    )
                    &&& final(self).is_solved_at(index as int)
                },
                Outcome::Advanced => {
                    &&& no_match(old(self).population@, old(self).config.target@)
                    &&& final(self).generation == old(self).generation + 1
                    &&& !old(self).config.exhausted_at(final(self).generation as nat)
                    &&& final(self).is_bred_generation()
                },
                Outcome::Exhausted => {
                    &&& no_match(old(self).population@, old(self).config.target@)
                    &&& final(self).generation == old(self).generation + 1
                    &&& old(self).config.exhausted_at(final(self).generation as nat)
                    &&& final(self).is_bred_generation()
                },
            },
    {
        let ghost target = self.config.target@;
        let ghost parents = self.population@;
        let found = evaluate_population(&mut self.population, self.config.target.as_slice());
        let ghost scored = self.population@;
        self.best_fitness = found.best_fitness;
        match found.solver {
            Some(index) => {
                proof {
                    lemma_first_solver_matches(scored, parents, target, index as int);
                    lemma_first_best_is_champion(
                        scored,
                        parents,
                        target,
                        index as int,
                        found.best_fitness as nat,
                    );
                    lemma_scored(scored, parents, target);
                }
                return Outcome::Solved { generation: self.generation, index };
            },
            None => {},
        }
        rank(&mut self.population);
        let ghost ranking = self.population@;
        let children = reproduce(
            self.population.as_slice(),
            self.config.population_size,
            self.config.elite_per_million,
            self.config.mutation_per_million,
        );
        proof {
            lemma_no_solver_no_match(scored, parents, target);
            let champion = choose|index: int| #[trigger]
                is_first_best(scored, scored.len() as int, index) && ranking[0] == scored[index];
            lemma_first_best_is_champion(
                scored,
                parents,
                target,
                champion,
                found.best_fitness as nat,
            );
            assert forall|i: int| 0 <= i < children@.len() implies descends_from(
                (#[trigger] children@[i])@,
                parents[champion].genes@,
                self.config.mutation_per_million,
            ) && children@[i]@.wf(target) by {
                assert(descends_from(
                    children@[i]@,
                    ranking[0].genes@,
                    self.config.mutation_per_million,
                ));
                assert(parents[champion]@.wf(target));
                lemma_descendant_wf(
                    children@[i]@,
                    parents[champion].genes@,
                    self.config.mutation_per_million,
                    target,
                );
            }
        }
        let ghost champion = choose|champion: int|
            is_champion(parents, target, champion) && found.best_fitness == score(
                parents[champion].genes@,
                target,
            ) && all_descend_from(
                children@,
                parents[champion].genes@,
                self.config.mutation_per_million,
            );
        self.population = children;
        self.generation = self.generation + 1;
        proof {
            assert(is_bred_from(self.population@, parents, champion, self.config));
        }
        if !self.config.unbounded && self.generation >= self.config.generation_cap {
            Outcome::Exhausted
        } else {
            Outcome::Advanced
        }
    }

    /// Runs the search to its end: generation after generation until a
    /// candidate matches the target or no generation is left.
    ///
    /// A bounded search is exhausted as soon as the generation counter has
    /// reached the cap, and in any case after its first generation. An
    /// unbounded search ends only with a solution, or when the generation
    /// counter can count no further.
    ///
    /// A search that ends with a solution stands at an evaluated generation:
    /// the one it started with, or one that was bred on the way. A search
    /// that ends exhausted stands at a generation that was bred and not
    /// evaluated. How many generations lie between the first and the last is
    /// told by the counter.
    pub fn run(&mut self) -> (outcome: Outcome)
        requires
            old(self).wf(),
            old(self).generation < u64::MAX,
        ensures
            final(self).wf(),
            final(self).config == old(self).config,
            match outcome {
                Outcome::Solved { generation, index } => {
                    &&& final(self).is_solved_at(index as int)
                    &&& generation == final(self).generation
                    &&& generation >= old(self).generation
                    &&& generation == old(self).generation ==> is_evaluation_of(
                        final(self).population@,
                        old(self).population@,
                        old(self).config.target@,
                    )
                    &&& generation > old(self).generation ==> {
                        &&& no_match(old(self).population@, old(self).config.target@)
                        &&& !old(self).config.exhausted_at(generation as nat)
                        &&& final(self).is_evaluated_offspring()
                    }
                },
                Outcome::Exhausted => {
                    &&& no_match(old(self).population@, old(self).config.target@)
                    &&& final(self).is_bred_generation()
                    &&& if old(self).config.unbounded {
                        final(self).generation == u64::MAX
                    } else if old(self).generation < old(self).config.generation_cap {
                        final(self).generation == old(self).config.generation_cap
                    } else {
                        final(self).generation == old(self).generation + 1
                    }
                },
                Outcome::Advanced => false,
            },
            !no_match(old(self).population@, old(self).config.target@) ==> outcome is Solved
                && final(self).generation == old(self).generation,
    {
        let ghost target = self.config.target@;
        let ghost first_population = self.population@;
        let ghost first_generation = self.generation;
        let mut outcome = self.step();
        let mut running: bool = match outcome {
            Outcome::Advanced => self.generation < u64::MAX,
            _ => false,
        };
        while running
            invariant
                self.wf(),
                self.config == old(self).config,
                target == self.config.target@,
                first_generation == old(self).generation,
                first_population == old(self).population@,
                self.generation >= first_generation,
                running <==> outcome is Advanced && self.generation < u64::MAX,
                match outcome {
                    Outcome::Solved { generation, index } => {
                        &&& self.is_solved_at(index as int)
                        &&& generation == self.generation
                        &&& generation == first_generation ==> is_evaluation_of(
                            self.population@,
                            first_population,
                            target,
                        )
                        &&& generation > first_generation ==> {
                            &&& no_match(first_population, target)
                            &&& !self.config.exhausted_at(generation as nat)
                            &&& self.is_evaluated_offspring()
                        }
                    },
                    Outcome::Exhausted => {
                        &&& no_match(first_population, target)
                        &&& self.is_bred_generation()
                        &&& self.config.exhausted_at(self.generation as nat)
                        &&& self.generation > first_generation
                        &&& self.generation > first_generation + 1
                            ==> !self.config.exhausted_at((self.generation - 1) as nat)
                    },
                    Outcome::Advanced => {
                        &&& no_match(first_population, target)
                        &&& self.is_bred_generation()
                        &&& self.generation > first_generation
                        &&& !self.config.exhausted_at(self.generation as nat)
                    },
                },
            decreases u64::MAX - self.generation + (if running {
                    1int
                } else {
                    0int
                }),
        {
            let ghost children = self.population@;
            let ghost (parents, champion) = choose|parents: Seq<Agent>, champion: int|
                #[trigger] is_bred_from(children, parents, champion, self.config)
                    && self.best_fitness == score(parents[champion].genes@, target);
            outcome = self.step();
            proof {
                if outcome is Solved {
                    assert(is_bred_from(children, parents, champion, self.config));
                }
            }
            running = match outcome {
                Outcome::Advanced => self.generation < u64::MAX,
                _ => false,
            };
        }
        match outcome {
            Outcome::Advanced => Outcome::Exhausted,
            _ => outcome,
        }
    }
}

} // verus!
