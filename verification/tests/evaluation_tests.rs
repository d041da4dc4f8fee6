use evo_search::agent::Agent;
use evo_search::evaluation::evaluate_population;

#[test]
fn evaluation_scores_every_candidate() {
    let mut population = vec![
        Agent::from_genes(b"XYZ".to_vec()),
        Agent::from_genes(b"AYZ".to_vec()),
        Agent::from_genes(b"ABZ".to_vec()),
    ];
    let found = evaluate_population(&mut population, b"ABC");
    let fitness: Vec<usize> = population.iter().map(|a| a.fitness).collect();
    assert_eq!(fitness, vec![0, 1, 2]);
    assert!(population.iter().all(|a| a.calculated));
    assert_eq!(population[0].genes, b"XYZ".to_vec());
    assert_eq!(population[1].genes, b"AYZ".to_vec());
    assert_eq!(population[2].genes, b"ABZ".to_vec());
    assert_eq!(found.best_fitness, 2);
    assert_eq!(found.solver, None);
}

#[test]
fn evaluation_finds_the_first_solver() {
    let mut population = vec![
        Agent::from_genes(b"ABX".to_vec()),
        Agent::from_genes(b"ABC".to_vec()),
        Agent::from_genes(b"XXX".to_vec()),
        Agent::from_genes(b"ABC".to_vec()),
    ];
    let found = evaluate_population(&mut population, b"ABC");
    assert_eq!(found.solver, Some(1));
    assert_eq!(found.best_fitness, 3);
    assert_eq!(population[1].fitness, 3);
    assert_eq!(population[3].fitness, 3);
}

#[test]
fn evaluation_answers_valid_caches_without_recomputation() {
    let mut population = vec![
        Agent { genes: b"ABC".to_vec(), fitness: 1, calculated: true },
        Agent { genes: b"XXX".to_vec(), fitness: 0, calculated: false },
    ];
    let found = evaluate_population(&mut population, b"ABC");
    assert_eq!(population[0].fitness, 1);
    assert_eq!(population[1].fitness, 0);
    assert_eq!(found.best_fitness, 1);
    assert_eq!(found.solver, None);
}

#[test]
fn evaluation_of_an_empty_population() {
    let mut population: Vec<Agent> = Vec::new();
    let found = evaluate_population(&mut population, b"ABC");
    assert_eq!(found.best_fitness, 0);
    assert_eq!(found.solver, None);
}

#[test]
fn every_candidate_solves_an_empty_target() {
    let mut population = vec![Agent::from_genes(Vec::new()), Agent::from_genes(Vec::new())];
    let found = evaluate_population(&mut population, b"");
    assert_eq!(found.solver, Some(0));
    assert_eq!(found.best_fitness, 0);
}

#[test]
fn evaluation_of_a_large_population() {
    // Large enough for the work to be split among threads.
    let target = b"Hello, World!";
    let mut population: Vec<Agent> = Vec::new();
    for i in 0..5_000usize {
        let mut genes = target.to_vec();
        for gene in genes.iter_mut().take(i % 14) {
            *gene = b'#';
        }
        population.push(Agent::from_genes(genes));
    }
    let found = evaluate_population(&mut population, target);
    for (i, agent) in population.iter().enumerate() {
        assert!(agent.calculated);
        assert_eq!(agent.fitness, 13 - i % 14);
    }
    assert_eq!(found.best_fitness, 13);
    assert_eq!(found.solver, Some(0));
}
