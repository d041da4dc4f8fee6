use evo_search::agent::Agent;
use evo_search::ranking::{descending_fitness, rank};
use std::cmp::Ordering;

fn tagged(tag: u8, fitness: usize) -> Agent {
    Agent { genes: vec![tag], fitness, calculated: true }
}

#[test]
fn fitter_candidates_order_first() {
    assert_eq!(descending_fitness(&tagged(1, 5), &tagged(2, 3)), Ordering::Less);
    assert_eq!(descending_fitness(&tagged(1, 3), &tagged(2, 5)), Ordering::Greater);
    assert_eq!(descending_fitness(&tagged(1, 4), &tagged(2, 4)), Ordering::Equal);
}

#[test]
fn rank_sorts_descending() {
    let mut population = vec![tagged(1, 2), tagged(2, 9), tagged(3, 0), tagged(4, 5)];
    rank(&mut population);
    let fitness: Vec<usize> = population.iter().map(|a| a.fitness).collect();
    assert_eq!(fitness, vec![9, 5, 2, 0]);
    let tags: Vec<u8> = population.iter().map(|a| a.genes[0]).collect();
    assert_eq!(tags, vec![2, 4, 1, 3]);
}

#[test]
fn rank_keeps_the_order_of_ties() {
    let mut population = vec![
        tagged(1, 3),
        tagged(2, 7),
        tagged(3, 3),
        tagged(4, 7),
        tagged(5, 3),
        tagged(6, 7),
    ];
    rank(&mut population);
    let tags: Vec<u8> = population.iter().map(|a| a.genes[0]).collect();
    assert_eq!(tags, vec![2, 4, 6, 1, 3, 5]);
}

#[test]
fn rank_keeps_the_order_of_ties_in_a_large_population() {
    // Large enough for the sort to split the work.
    let mut population: Vec<Agent> = Vec::new();
    for i in 0..20_000usize {
        population.push(Agent {
            genes: vec![(i % 251) as u8, (i / 251) as u8],
            fitness: i % 7,
            calculated: true,
        });
    }
    let before = population.clone();
    rank(&mut population);
    assert_eq!(population.len(), before.len());
    for pair in population.windows(2) {
        assert!(pair[0].fitness >= pair[1].fitness);
    }
    for fitness in 0..7usize {
        let old: Vec<&Vec<u8>> =
            before.iter().filter(|a| a.fitness == fitness).map(|a| &a.genes).collect();
        let new: Vec<&Vec<u8>> =
            population.iter().filter(|a| a.fitness == fitness).map(|a| &a.genes).collect();
        assert_eq!(old, new);
    }
}

#[test]
fn rank_of_small_populations() {
    let mut none: Vec<Agent> = Vec::new();
    rank(&mut none);
    assert!(none.is_empty());

    let mut one = vec![tagged(1, 4)];
    rank(&mut one);
    assert_eq!(one.len(), 1);
    assert_eq!(one[0].genes, vec![1]);
}

#[test]
fn rank_puts_the_first_fittest_in_front() {
    let mut population = vec![tagged(1, 1), tagged(2, 6), tagged(3, 6), tagged(4, 2)];
    rank(&mut population);
    assert_eq!(population[0].genes, vec![2]);
    assert_eq!(population[0].fitness, 6);
}
