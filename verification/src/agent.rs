//! One candidate solution: a gene sequence with a memoized fitness score.

use crate::fitness::{count_matches, lemma_full_score_iff_equal, lemma_score_bounded, score};
use crate::random::random_byte;
use vstd::prelude::*;

verus! {

/// A candidate solution. `fitness` caches the score of `genes` and is
/// meaningful only while `calculated` is set.
#[derive(Clone, Debug)]
pub struct Agent {
    pub genes: Vec<u8>,
    pub fitness: usize,
    pub calculated: bool,
}

/// The mathematical content of an [`Agent`].
pub struct AgentView {
    pub genes: Seq<u8>,
    pub fitness: nat,
    pub calculated: bool,
}

impl View for Agent {
    type V = AgentView;

    open spec fn view(&self) -> AgentView {
        AgentView {
            genes: self.genes@,
            fitness: self.fitness as nat,
            calculated: self.calculated,
        }
    }
}

impl AgentView {
    /// A candidate whose fitness is not yet known.
    pub open spec fn unscored(genes: Seq<u8>) -> AgentView {
        AgentView { genes, fitness: 0, calculated: false }
    }

    /// The candidate has as many genes as the target has bytes.
    pub open spec fn fits(self, target: Seq<u8>) -> bool {
        self.genes.len() == target.len()
    }

    /// A valid cache holds the score of the current genes.
    pub open spec fn cache_sound(self, target: Seq<u8>) -> bool {
        self.calculated ==> self.fitness == score(self.genes, target)
    }

    /// Well-formedness with respect to a target: the right length, and no
    /// stale score behind a valid cache flag.
    pub open spec fn wf(self, target: Seq<u8>) -> bool {
        self.fits(target) && self.cache_sound(target)
    }

    /// The candidate after a fitness evaluation: a valid cache is left as it
    /// is, an invalid one is filled with the score of the genes.
    pub open spec fn evaluated(self, target: Seq<u8>) -> AgentView {
        if self.calculated {
            self
        } else {
            AgentView { genes: self.genes, fitness: score(self.genes, target), calculated: true }
        }
    }

    /// The candidate's genes are the target itself.
    pub open spec fn solves(self, target: Seq<u8>) -> bool {
        self.genes == target
    }
}

/// Evaluating keeps candidates well-formed, and afterwards every cache is
/// valid and holds the score of the genes.
pub proof fn lemma_evaluated_wf(agent: AgentView, target: Seq<u8>)
    requires
        agent.wf(target),
    ensures
        agent.evaluated(target).wf(target),
        agent.evaluated(target).calculated,
        agent.evaluated(target).genes == agent.genes,
        agent.evaluated(target).fitness == score(agent.genes, target),
{
}

/// Evaluating a candidate a second time changes nothing: the first
/// evaluation leaves a valid cache, which the second answers from.
pub proof fn lemma_evaluation_idempotent(agent: AgentView, target: Seq<u8>)
    ensures
        agent.evaluated(target).evaluated(target) == agent.evaluated(target),
        agent.evaluated(target).evaluated(target).fitness == agent.evaluated(target).fitness,
{
}

/// An evaluated well-formed candidate scores the full length of the target
/// exactly when its genes are the target.
pub proof fn lemma_solver_iff_target(agent: AgentView, target: Seq<u8>)
    requires
        agent.wf(target),
    ensures
        agent.evaluated(target).fitness == target.len() <==> agent.solves(target),
{
    lemma_full_score_iff_equal(agent.genes, target);
}

/// The text that a gene sequence stands for: each byte is read as the
/// character with that code point.
pub open spec fn decoded(genes: Seq<u8>) -> Seq<char> {
    genes.map_values(|g: u8| g as char)
}

/// Appends one character with `String::push`.
///
/// Trusted, not proved: the text afterwards is the text before followed by
/// `c`.
#[verifier::external_body]
fn push_char(text: &mut String, c: char)
    ensures
        final(text)@ == old(text)@.push(c),
{
    text.push(c)
}

impl Agent {
    /// A candidate with the given genes and no score yet.
    pub fn from_genes(genes: Vec<u8>) -> (agent: Agent)
        ensures
            agent@ == AgentView::unscored(genes@),
            agent.genes == genes,
    {
        Agent { genes, fitness: 0, calculated: false }
    }

    /// A candidate with `length` randomly drawn genes and no score yet.
    pub fn new(length: usize) -> (agent: Agent)
        ensures
            agent@ == AgentView::unscored(agent.genes@),
            agent.genes@.len() == length,
    {
        let mut genes: Vec<u8> = Vec::new();
        let mut i: usize = 0;
        while i < length
            invariant
                i <= length,
                genes@.len() == i,
            decreases length - i,
        {
            genes.push(random_byte());
            i = i + 1;
        }
        Agent::from_genes(genes)
    }

    /// Returns the fitness against `target`. A valid cache is answered
    /// without looking at the genes; otherwise the score is computed, stored,
    /// and the cache marked valid.
    pub fn calculate_fitness(&mut self, target: &[u8]) -> (fitness: usize)
        ensures
            final(self)@ == old(self)@.evaluated(target@),
            fitness == final(self)@.fitness,
            old(self)@.cache_sound(target@) ==> fitness == score(old(self)@.genes, target@),
            old(self)@.cache_sound(target@) ==> fitness <= target@.len() && fitness
                <= old(self)@.genes.len(),
            final(self)@.cache_sound(target@) <==> old(self)@.cache_sound(target@),
    {
        proof {
            lemma_score_bounded(self.genes@, target@);
        }
        if self.calculated {
            return self.fitness;
        }
        self.fitness = count_matches(self.genes.as_slice(), target);
        self.calculated = true;
        self.fitness
    }

    /// Tests whether the candidate is well-formed for `target`: as long as
    /// the target, and without a stale score behind a valid cache flag.
    pub fn is_valid_for(&self, target: &[u8]) -> (valid: bool)
        ensures
            valid == self@.wf(target@),
    {
        if self.genes.len() != target.len() {
            return false;
        }
        !self.calculated || self.fitness == count_matches(self.genes.as_slice(), target)
    }

    /// The genes read as text, one character per byte.
    pub fn genes_as_string(&self) -> (text: String)
        ensures
            text@ == decoded(self.genes@),
    {
        let mut text = String::new();
        let mut i: usize = 0;
        while i < self.genes.len()
            invariant
                i <= self.genes.len(),
                text@ == decoded(self.genes@.take(i as int)),
            decreases self.genes.len() - i,
        {
            let c: char = self.genes[i] as char;
            push_char(&mut text, c);
            proof {
                assert(self.genes@.take(i + 1) == self.genes@.take(i as int).push(
                    self.genes@[i as int],
                ));
                assert(decoded(self.genes@.take(i + 1)) == decoded(self.genes@.take(i as int)).push(
                    c,
                ));
            }
            i = i + 1;
        }
        proof {
            assert(self.genes@.take(i as int) == self.genes@);
        }
        text
    }
}

} // verus!
