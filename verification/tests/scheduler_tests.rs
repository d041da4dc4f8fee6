use evo_search::agent::Agent;
use evo_search::config::{Config, PER_MILLION};
use evo_search::scheduler::{Outcome, Scheduler};

fn config(target: &[u8], population_size: usize, mutation_per_million: u32) -> Config {
    Config {
        target: target.to_vec(),
        population_size,
        mutation_per_million,
        generation_cap: 1_000_000,
        unbounded: true,
        elite_per_million: 1_000,
    }
}

fn search(config: Config, genes: &[&[u8]]) -> Scheduler {
    let population = genes.iter().map(|g| Agent::from_genes(g.to_vec())).collect();
    Scheduler { config, population, generation: 0, best_fitness: 0 }
}

#[test]
fn single_exact_candidate_is_solved_at_generation_zero() {
    let mut scheduler = search(config(b"AB", 1, 10_000), &[&[b'A', b'B']]);
    assert!(scheduler.is_valid());
    let outcome = scheduler.step();
    assert_eq!(outcome, Outcome::Solved { generation: 0, index: 0 });
    assert_eq!(scheduler.population[0].fitness, 2);
    assert_eq!(scheduler.population[0].fitness, scheduler.config.target.len());
    assert_eq!(scheduler.generation, 0);
    assert_eq!(scheduler.best_fitness, 2);
    assert_eq!(scheduler.population[0].genes_as_string(), "AB");
}

#[test]
fn run_reports_a_solution_without_further_iteration() {
    let mut scheduler = search(config(b"AB", 1, 10_000), &[&[b'A', b'B']]);
    let outcome = scheduler.run();
    assert_eq!(outcome, Outcome::Solved { generation: 0, index: 0 });
    assert_eq!(scheduler.generation, 0);
    assert_eq!(scheduler.population.len(), 1);
    assert_eq!(scheduler.population[0].genes, b"AB".to_vec());
    assert!(scheduler.population[0].calculated);
}

#[test]
fn target_in_the_first_generation_is_found_without_mutation() {
    let mut scheduler =
        search(config(b"ABC", 4, 0), &[b"XXX", b"ABX", b"ABC", b"ABC"]);
    let outcome = scheduler.run();
    assert_eq!(outcome, Outcome::Solved { generation: 0, index: 2 });
    assert_eq!(scheduler.generation, 0);
    // The population was evaluated and left in place: every candidate is
    // scored, and the best fitness is the full length of the target.
    let fitness: Vec<usize> = scheduler.population.iter().map(|a| a.fitness).collect();
    assert_eq!(fitness, vec![0, 2, 3, 3]);
    assert!(scheduler.population.iter().all(|a| a.calculated));
    assert_eq!(scheduler.best_fitness, 3);
    assert_eq!(scheduler.population[2].genes, b"ABC".to_vec());
}

#[test]
fn target_in_the_first_generation_is_found_at_any_mutation_rate() {
    for rate in [0u32, 1, 10_000, 500_000, PER_MILLION] {
        let mut scheduler = search(config(b"ABC", 3, rate), &[b"XXX", b"ABC", b"ABX"]);
        assert_eq!(scheduler.step(), Outcome::Solved { generation: 0, index: 1 });
        assert_eq!(scheduler.generation, 0);
    }
}

#[test]
fn step_without_mutation_copies_the_champion() {
    let mut scheduler =
        search(config(b"ABCD", 4, 0), &[b"XXXX", b"ABXX", b"XBCD", b"ABCX"]);
    let outcome = scheduler.step();
    assert_eq!(outcome, Outcome::Advanced);
    assert_eq!(scheduler.generation, 1);
    assert_eq!(scheduler.best_fitness, 3);
    assert_eq!(scheduler.population.len(), 4);
    for child in &scheduler.population {
        // The first of the two candidates that score 3.
        assert_eq!(child.genes, b"XBCD".to_vec());
        assert_eq!(child.fitness, 0);
        assert!(!child.calculated);
    }
    assert!(scheduler.is_valid());
}

#[test]
fn step_with_mutation_keeps_the_population_well_formed() {
    let mut scheduler = search(
        config(b"Hello, World!", 3, 300_000),
        &[b"#############", b"Hello, #####!", b"Hello, Wor###"],
    );
    for generation in 1..=20u64 {
        let outcome = scheduler.step();
        if let Outcome::Solved { .. } = outcome {
            break;
        }
        assert_eq!(outcome, Outcome::Advanced);
        assert_eq!(scheduler.generation, generation);
        assert_eq!(scheduler.population.len(), 3);
        for child in &scheduler.population {
            assert_eq!(child.genes.len(), 13);
            assert!(!child.calculated);
        }
        assert!(scheduler.is_valid());
    }
}

#[test]
fn best_fitness_is_the_champions_score() {
    let mut scheduler = search(config(b"ABCD", 3, 0), &[b"AXXX", b"ABXX", b"XXXX"]);
    scheduler.step();
    assert_eq!(scheduler.best_fitness, 2);
    // All children are copies of the champion, which scores 2.
    scheduler.step();
    assert_eq!(scheduler.best_fitness, 2);
    assert_eq!(scheduler.generation, 2);
}

#[test]
fn bounded_search_is_exhausted_at_the_cap() {
    let mut settings = config(b"ABCD", 2, 0);
    settings.unbounded = false;
    settings.generation_cap = 3;
    let mut scheduler = search(settings, &[b"AXXX", b"XXXX"]);
    assert_eq!(scheduler.step(), Outcome::Advanced);
    assert_eq!(scheduler.step(), Outcome::Advanced);
    assert_eq!(scheduler.step(), Outcome::Exhausted);
    assert_eq!(scheduler.generation, 3);
}

#[test]
fn bounded_run_ends_at_the_cap() {
    let mut settings = config(b"ABCD", 2, 0);
    settings.unbounded = false;
    settings.generation_cap = 25;
    let mut scheduler = search(settings, &[b"AXXX", b"XXXX"]);
    assert_eq!(scheduler.run(), Outcome::Exhausted);
    assert_eq!(scheduler.generation, 25);
    // The search stands at a generation that was bred and not evaluated:
    // unscored copies of the champion, whose score is the best fitness.
    assert_eq!(scheduler.population.len(), 2);
    for child in &scheduler.population {
        assert_eq!(child.genes, b"AXXX".to_vec());
        assert_eq!(child.fitness, 0);
        assert!(!child.calculated);
    }
    assert_eq!(scheduler.best_fitness, 1);
    assert!(scheduler.is_valid());
}

#[test]
fn exhausted_run_with_mutation_stands_at_a_bred_generation() {
    // The mutation cannot reach the target in time: at a rate of one in a
    // million, 30 generations of 4 children of 64 genes see a replacement
    // with a probability below 1%, and a full match with one below 1e-100.
    let mut settings = config(&[b'A'; 64], 4, 1);
    settings.unbounded = false;
    settings.generation_cap = 30;
    let first: Vec<&[u8]> = vec![&[b'X'; 64], &[b'X'; 64], &[b'X'; 64], &[b'X'; 64]];
    let mut scheduler = search(settings, &first);
    assert_eq!(scheduler.run(), Outcome::Exhausted);
    assert_eq!(scheduler.generation, 30);
    assert_eq!(scheduler.population.len(), 4);
    for child in &scheduler.population {
        assert_eq!(child.genes.len(), 64);
        assert_eq!(child.fitness, 0);
        assert!(!child.calculated);
    }
    assert!(scheduler.best_fitness < 64);
    assert!(scheduler.is_valid());
}

#[test]
fn cap_of_zero_still_runs_one_generation() {
    let mut settings = config(b"AB", 1, 0);
    settings.unbounded = false;
    settings.generation_cap = 0;
    let mut unsolved = search(settings.clone(), &[b"XX"]);
    assert_eq!(unsolved.run(), Outcome::Exhausted);
    assert_eq!(unsolved.generation, 1);

    let mut solved = search(settings, &[b"AB"]);
    assert_eq!(solved.run(), Outcome::Solved { generation: 0, index: 0 });
}

#[test]
fn unbounded_search_ignores_the_cap() {
    let mut settings = config(b"ABCD", 2, 0);
    settings.unbounded = true;
    settings.generation_cap = 1;
    let mut scheduler = search(settings, &[b"AXXX", b"XXXX"]);
    for generation in 1..=5u64 {
        assert_eq!(scheduler.step(), Outcome::Advanced);
        assert_eq!(scheduler.generation, generation);
    }
}

#[test]
fn new_search_starts_at_generation_zero() {
    let scheduler = Scheduler::new(config(b"Hello, World!", 1000, 10_000));
    assert_eq!(scheduler.generation, 0);
    assert_eq!(scheduler.best_fitness, 0);
    assert_eq!(scheduler.population.len(), 1000);
    for agent in &scheduler.population {
        assert_eq!(agent.genes.len(), 13);
        assert_eq!(agent.fitness, 0);
        assert!(!agent.calculated);
    }
    assert!(scheduler.is_valid());
    // Two candidates of 13 random bytes agree with a probability of 2^-104.
    assert_ne!(scheduler.population[0].genes, scheduler.population[1].genes);
}

#[test]
fn search_for_an_empty_target_is_solved_at_once() {
    let mut scheduler = Scheduler::new(config(b"", 5, 10_000));
    assert_eq!(scheduler.run(), Outcome::Solved { generation: 0, index: 0 });
}

#[test]
fn search_finds_a_short_target() {
    // With every gene redrawn in every generation, each of the 64 children
    // of a generation is the target with a probability of 1/256. A bounded
    // search of 10_000 generations fails with a probability below 1e-1000.
    let mut settings = config(b"A", 64, PER_MILLION);
    settings.unbounded = false;
    settings.generation_cap = 10_000;
    let mut scheduler = Scheduler::new(settings);
    let outcome = scheduler.run();
    match outcome {
        Outcome::Solved { generation, index } => {
            assert_eq!(generation, scheduler.generation);
            assert!(generation < 10_000);
            assert_eq!(scheduler.population[index].genes, b"A".to_vec());
            assert_eq!(scheduler.population[index].fitness, 1);
            assert_eq!(scheduler.best_fitness, 1);
            // Every candidate of the last generation is scored.
            for agent in &scheduler.population {
                assert!(agent.calculated);
                assert_eq!(agent.fitness, if agent.genes == b"A".to_vec() { 1 } else { 0 });
            }
            assert_eq!(scheduler.population[index].genes_as_string(), "A");
            // No earlier candidate of that generation is a solution.
            for earlier in &scheduler.population[..index] {
                assert_ne!(earlier.genes, b"A".to_vec());
            }
        }
        other => panic!("the search ended with {:?}", other),
    }
}

#[test]
fn search_climbs_towards_the_target() {
    // Every generation descends from the champion of the one before. With a
    // fifth of the genes redrawn in every child, a population of 200 gains a
    // matching gene every few generations.
    let mut settings = config(b"Hi", 200, 200_000);
    settings.unbounded = false;
    settings.generation_cap = 100_000;
    let mut scheduler = Scheduler::new(settings);
    let outcome = scheduler.run();
    match outcome {
        Outcome::Solved { generation, index } => {
            assert_eq!(generation, scheduler.generation);
            assert_eq!(scheduler.population[index].genes_as_string(), "Hi");
            assert_eq!(scheduler.best_fitness, 2);
        }
        other => panic!("the search ended with {:?}", other),
    }
}

#[test]
fn validity_of_a_search() {
    let good = search(config(b"AB", 2, 0), &[b"AB", b"XY"]);
    assert!(good.is_valid());

    let wrong_size = search(config(b"AB", 3, 0), &[b"AB", b"XY"]);
    assert!(!wrong_size.is_valid());

    let wrong_length = search(config(b"AB", 2, 0), &[b"AB", b"XYZ"]);
    assert!(!wrong_length.is_valid());

    let mut stale = search(config(b"AB", 2, 0), &[b"AB", b"XY"]);
    stale.population[1].fitness = 2;
    stale.population[1].calculated = true;
    assert!(!stale.is_valid());

    let mut bad_settings = search(config(b"AB", 2, 0), &[b"AB", b"XY"]);
    bad_settings.config.elite_per_million = 0;
    assert!(!bad_settings.is_valid());
}
