//! Single-point crossover: a child takes the genes before the crossover point
//! from its first parent and the genes from the point on from its second.

use crate::agent::{Agent, AgentView};
use crate::random::random_below;
use vstd::prelude::*;

verus! {

/// The genes of a child cut at `point`: `first[0..point]` followed by
/// `second[point..]`.
pub open spec fn spliced(first: Seq<u8>, second: Seq<u8>, point: int) -> Seq<u8> {
    first.take(point) + second.skip(point)
}

/// The points at which parents with `length` genes can be cut: every index of
/// a gene, and for parents without genes the only cut there is.
pub open spec fn is_crossover_point(point: int, length: nat) -> bool {
    0 <= point < length || (length == 0 && point == 0)
}

/// The child agrees with the first parent before the point and with the
/// second parent from the point on, and is as long as its parents.
pub proof fn lemma_spliced_parts(first: Seq<u8>, second: Seq<u8>, point: int)
    requires
        first.len() == second.len(),
        0 <= point <= first.len(),
    ensures
        spliced(first, second, point).len() == first.len(),
        spliced(first, second, point).take(point) == first.take(point),
        spliced(first, second, point).skip(point) == second.skip(point),
        forall|i: int| 0 <= i < point ==> spliced(first, second, point)[i] == first[i],
        forall|i: int| point <= i < first.len() ==> spliced(first, second, point)[i] == second[i],
{
    let child = spliced(first, second, point);
    assert(child.take(point) =~= first.take(point));
    assert(child.skip(point) =~= second.skip(point));
}

/// Crossing a gene sequence with itself gives it back, wherever the cut is
/// made.
pub proof fn lemma_spliced_identical(genes: Seq<u8>, point: int)
    requires
        0 <= point <= genes.len(),
    ensures
        spliced(genes, genes, point) == genes,
{
    assert(spliced(genes, genes, point) =~= genes);
}

/// Builds the child of `parent1` and `parent2` cut at `point`. The child's
/// fitness is not yet known.
pub fn crossover_at(parent1: &Agent, parent2: &Agent, point: usize) -> (child: Agent)
    requires
        parent1.genes@.len() == parent2.genes@.len(),
        point <= parent1.genes@.len(),
    ensures
        child@ == AgentView::unscored(spliced(parent1.genes@, parent2.genes@, point as int)),
        child.genes@.len() == parent1.genes@.len(),
        child.genes@.take(point as int) == parent1.genes@.take(point as int),
        child.genes@.skip(point as int) == parent2.genes@.skip(point as int),
{
    let length: usize = parent1.genes.len();
    let mut genes: Vec<u8> = Vec::new();
    let mut i: usize = 0;
    while i < point
        invariant
            i <= point <= length,
            length == parent1.genes@.len(),
            genes@ == parent1.genes@.take(i as int),
        decreases point - i,
    {
        genes.push(parent1.genes[i]);
        assert(genes@ =~= parent1.genes@.take(i + 1));
        i = i + 1;
    }
    while i < length
        invariant
            point <= i <= length,
            length == parent1.genes@.len(),
            length == parent2.genes@.len(),
            genes@ == parent1.genes@.take(point as int) + parent2.genes@.subrange(
                point as int,
                i as int,
            ),
        decreases length - i,
    {
        genes.push(parent2.genes[i]);
        assert(genes@ =~= parent1.genes@.take(point as int) + parent2.genes@.subrange(
            point as int,
            i + 1,
        ));
        i = i + 1;
    }
    proof {
        assert(parent2.genes@.subrange(point as int, length as int) =~= parent2.genes@.skip(
            point as int,
        ));
        lemma_spliced_parts(parent1.genes@, parent2.genes@, point as int);
    }
    Agent::from_genes(genes)
}

/// Breeds a child of two parents at a randomly drawn crossover point. The
/// point is the only thing left to chance, and the child's fitness is not yet
/// known.
pub fn crossover(parent1: &Agent, parent2: &Agent) -> (child: Agent)
    requires
        parent1.genes@.len() == parent2.genes@.len(),
    ensures
        exists|point: int|
            is_crossover_point(point, parent1.genes@.len()) && child@ == AgentView::unscored(
                #[trigger] spliced(parent1.genes@, parent2.genes@, point),
            ),
        child.genes@.len() == parent1.genes@.len(),
        parent1.genes@ == parent2.genes@ ==> child.genes@ == parent1.genes@,
{
    let length: usize = parent1.genes.len();
    let point: usize = if length == 0 {
        0
    } else {
        random_below(length)
    };
    let child = crossover_at(parent1, parent2, point);
    proof {
        assert(is_crossover_point(point as int, parent1.genes@.len()));
        if parent1.genes@ == parent2.genes@ {
            lemma_spliced_identical(parent1.genes@, point as int);
        }
    }
    child
}

} // verus!
