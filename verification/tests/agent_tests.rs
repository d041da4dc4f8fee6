use evo_search::agent::Agent;

#[test]
fn from_genes_keeps_the_genes_unscored() {
    let agent = Agent::from_genes(vec![1, 2, 3]);
    assert_eq!(agent.genes, vec![1, 2, 3]);
    assert_eq!(agent.fitness, 0);
    assert!(!agent.calculated);
}

#[test]
fn new_agent_has_the_requested_length() {
    for length in [0usize, 1, 2, 13, 100] {
        let agent = Agent::new(length);
        assert_eq!(agent.genes.len(), length);
        assert_eq!(agent.fitness, 0);
        assert!(!agent.calculated);
    }
}

#[test]
fn new_agents_differ() {
    // Two draws of 64 random bytes agree with a probability of 2^-512.
    let a = Agent::new(64);
    let b = Agent::new(64);
    assert_ne!(a.genes, b.genes);
}

#[test]
fn genes_as_string_decodes_ascii() {
    let agent = Agent::from_genes(b"Hello, World!".to_vec());
    assert_eq!(agent.genes_as_string(), "Hello, World!");
}

#[test]
fn genes_as_string_of_no_genes_is_empty() {
    let agent = Agent::from_genes(Vec::new());
    assert_eq!(agent.genes_as_string(), "");
}

#[test]
fn genes_as_string_reads_bytes_as_code_points() {
    // Each byte is the code point of one character, also above ASCII.
    let agent = Agent::from_genes(vec![0x41, 0xE9, 0xFF, 0x00]);
    let text = agent.genes_as_string();
    let chars: Vec<char> = text.chars().collect();
    assert_eq!(chars, vec!['A', '\u{e9}', '\u{ff}', '\u{0}']);
}

#[test]
fn validity_checks_length_and_cache() {
    let fresh = Agent::from_genes(b"AB".to_vec());
    assert!(fresh.is_valid_for(b"AB"));
    assert!(fresh.is_valid_for(b"XY"));
    assert!(!fresh.is_valid_for(b"ABC"));
    assert!(!fresh.is_valid_for(b""));

    let scored = Agent { genes: b"AB".to_vec(), fitness: 1, calculated: true };
    assert!(scored.is_valid_for(b"AX"));
    assert!(!scored.is_valid_for(b"AB"));

    let stale_but_invalidated = Agent { genes: b"AB".to_vec(), fitness: 9, calculated: false };
    assert!(stale_but_invalidated.is_valid_for(b"AB"));
}

#[test]
fn evaluation_keeps_an_agent_valid() {
    let mut agent = Agent::from_genes(b"ABCD".to_vec());
    assert!(agent.is_valid_for(b"ABXD"));
    agent.calculate_fitness(b"ABXD");
    assert!(agent.is_valid_for(b"ABXD"));
    assert_eq!(agent.fitness, 3);
}
