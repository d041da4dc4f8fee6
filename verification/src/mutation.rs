//! Per-gene mutation: every gene is independently replaced, with the
//! configured probability, by a randomly drawn byte.

use crate::agent::{Agent, AgentView};
use crate::config::PER_MILLION;
use crate::fitness::score;
use crate::random::{random_below, random_byte};
use vstd::prelude::*;

verus! {

/// No position is marked for replacement.
pub open spec fn untouched(replacements: Seq<Option<u8>>) -> bool {
    forall|i: int| 0 <= i < replacements.len() ==> replacements[i] is None
}

/// Every position is marked for replacement.
pub open spec fn all_replaced(replacements: Seq<Option<u8>>) -> bool {
    forall|i: int| 0 <= i < replacements.len() ==> replacements[i] is Some
}

/// The genes after the replacements: position `i` holds the replacement
/// byte where there is one, and the old gene otherwise.
pub open spec fn rewritten(genes: Seq<u8>, replacements: Seq<Option<u8>>) -> Seq<u8> {
    Seq::new(
        genes.len(),
        |i: int|
            match replacements[i] {
                Some(byte) => byte,
                None => genes[i],
            },
    )
}

/// The candidate after the replacements. Rewriting any position, even with
/// the byte it already held, invalidates the cache; rewriting none leaves the
/// cache flag as it was. The stored score is never touched.
pub open spec fn mutated(agent: AgentView, replacements: Seq<Option<u8>>) -> AgentView {
    AgentView {
        genes: rewritten(agent.genes, replacements),
        fitness: agent.fitness,
        calculated: agent.calculated && untouched(replacements),
    }
}

/// The replacements that can be drawn for `length` genes at the given rate:
/// a rate of zero marks no position, a rate of one marks every position.
pub open spec fn can_be_drawn(
    replacements: Seq<Option<u8>>,
    length: nat,
    mutation_per_million: u32,
) -> bool {
    &&& replacements.len() == length
    &&& mutation_per_million == 0 ==> untouched(replacements)
    &&& mutation_per_million == PER_MILLION ==> all_replaced(replacements)
}

/// Without a replacement the candidate stays as it is.
pub proof fn lemma_untouched_keeps(agent: AgentView, replacements: Seq<Option<u8>>)
    requires
        replacements.len() == agent.genes.len(),
        untouched(replacements),
    ensures
        mutated(agent, replacements) == agent,
{
    assert(rewritten(agent.genes, replacements) =~= agent.genes);
}

/// A mutation that changes at least one gene leaves the cache invalid, so
/// that the next evaluation computes the score of the new genes.
pub proof fn lemma_mutation_invalidates(
    agent: AgentView,
    replacements: Seq<Option<u8>>,
    target: Seq<u8>,
)
    requires
        replacements.len() == agent.genes.len(),
        mutated(agent, replacements).genes != agent.genes,
    ensures
        !mutated(agent, replacements).calculated,
        mutated(agent, replacements).evaluated(target).fitness == score(
            mutated(agent, replacements).genes,
            target,
        ),
{
    if untouched(replacements) {
        lemma_untouched_keeps(agent, replacements);
    }
}

/// Mutation keeps a candidate well-formed: the number of genes does not
/// change, and a cache that survives still holds the score of the genes.
pub proof fn lemma_mutation_preserves_wf(
    agent: AgentView,
    replacements: Seq<Option<u8>>,
    target: Seq<u8>,
)
    requires
        replacements.len() == agent.genes.len(),
    ensures
        mutated(agent, replacements).genes.len() == agent.genes.len(),
        agent.cache_sound(target) ==> mutated(agent, replacements).cache_sound(target),
        agent.wf(target) ==> mutated(agent, replacements).wf(target),
{
    if untouched(replacements) {
        lemma_untouched_keeps(agent, replacements);
    }
}

/// Rewrites the genes of `individual` as `replacements` says, position by
/// position, and invalidates the cache if any position was rewritten.
pub fn apply_mutations(individual: &mut Agent, replacements: &[Option<u8>])
    requires
        replacements@.len() == old(individual).genes@.len(),
    ensures
        final(individual)@ == mutated(old(individual)@, replacements@),
{
    let length: usize = individual.genes.len();
    let mut i: usize = 0;
    while i < length
        invariant
            i <= length,
            length == replacements@.len(),
            length == old(individual).genes@.len(),
            individual.genes@.len() == length,
            individual.fitness == old(individual).fitness,
            individual.calculated == (old(individual).calculated && forall|j: int|
                0 <= j < i ==> replacements@[j] is None),
            forall|j: int|
                0 <= j < i ==> individual.genes@[j] == rewritten(
                    old(individual).genes@,
                    replacements@,
                )[j],
            forall|j: int| i <= j < length ==> individual.genes@[j] == old(individual).genes@[j],
        decreases length - i,
    {
        match replacements[i] {
            Some(byte) => {
                individual.genes.set(i, byte);
                individual.calculated = false;
            },
            None => {},
        }
        i = i + 1;
    }
    proof {
        assert(individual.genes@ =~= rewritten(old(individual).genes@, replacements@));
    }
}

/// A number drawn from `[0, 1_000_000)` hits at the given rate: of the
/// million numbers that can be drawn, the first `mutation_per_million` do.
pub open spec fn hits(draw: nat, mutation_per_million: nat) -> bool {
    draw < mutation_per_million
}

/// At a rate of zero no draw hits, and at a rate of one every draw does.
pub proof fn lemma_hits_at_the_ends(draw: nat)
    requires
        draw < PER_MILLION,
    ensures
        !hits(draw, 0),
        hits(draw, PER_MILLION as nat),
{
}

/// Tests the drawn number against the mutation rate: the gene is hit exactly
/// when the number is below the rate.
pub fn is_hit(draw: usize, mutation_per_million: u32) -> (hit: bool)
    ensures
        hit == hits(draw as nat, mutation_per_million as nat),
        hit == (draw < mutation_per_million),
{
    draw < mutation_per_million as usize
}

/// Decides the fate of one gene: a number is drawn from `[0, 1_000_000)`,
/// and if it hits at the given rate ([`is_hit`]) a replacement byte is drawn
/// for the gene.
pub fn draw_replacement(mutation_per_million: u32) -> (replacement: Option<u8>)
    requires
        mutation_per_million <= PER_MILLION,
    ensures
        mutation_per_million == 0 ==> replacement is None,
        mutation_per_million == PER_MILLION ==> replacement is Some,
{
    let draw: usize = random_below(PER_MILLION as usize);
    if is_hit(draw, mutation_per_million) {
        Some(random_byte())
    } else {
        None
    }
}

/// Mutates `individual` in place: every gene is replaced by a random byte
/// with probability `mutation_per_million / 1_000_000`. Which genes are hit
/// and by what is left to chance; the rest follows from the draws as
/// [`mutated`] says.
pub fn mutate(individual: &mut Agent, mutation_per_million: u32)
    requires
        mutation_per_million <= PER_MILLION,
    ensures
        exists|replacements: Seq<Option<u8>>|
            can_be_drawn(replacements, old(individual).genes@.len(), mutation_per_million)
                && final(individual)@ == #[trigger] mutated(old(individual)@, replacements),
        final(individual).genes@.len() == old(individual).genes@.len(),
        final(individual).fitness == old(individual).fitness,
        final(individual).genes@ != old(individual).genes@ ==> !final(individual).calculated,
        final(individual).calculated ==> final(individual)@ == old(individual)@,
        mutation_per_million == 0 ==> final(individual)@ == old(individual)@,
        mutation_per_million == PER_MILLION && old(individual).genes@.len() > 0
            ==> !final(individual).calculated,
{
    let length: usize = individual.genes.len();
    let mut replacements: Vec<Option<u8>> = Vec::new();
    let mut i: usize = 0;
    while i < length
        invariant
            i <= length,
            mutation_per_million <= PER_MILLION,
            can_be_drawn(replacements@, i as nat, mutation_per_million),
        decreases length - i,
    {
        replacements.push(draw_replacement(mutation_per_million));
        i = i + 1;
    }
    apply_mutations(individual, replacements.as_slice());
    proof {
        let drawn = replacements@;
        if untouched(drawn) {
            lemma_untouched_keeps(old(individual)@, drawn);
        }
        if mutation_per_million == PER_MILLION && length > 0 {
            assert(drawn[0] is Some);
        }
    }
}

} // verus!
