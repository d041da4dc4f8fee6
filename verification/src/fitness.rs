//! The fitness measure: how many positions of a gene sequence agree with the
//! target.

use vstd::prelude::*;
use vstd::set_lib::*;

verus! {

/// The positions at which `genes` and `target` hold the same byte. A position
/// beyond the end of either sequence never matches.
pub open spec fn matching_positions(genes: Seq<u8>, target: Seq<u8>) -> Set<int> {
    Set::new(|i: int| 0 <= i < genes.len() && i < target.len() && genes[i] == target[i])
}

/// The fitness of `genes` against `target`: the number of matching positions.
pub open spec fn score(genes: Seq<u8>, target: Seq<u8>) -> nat {
    matching_positions(genes, target).len()
}

/// The matching positions are finitely many, and no more than either
/// sequence is long.
pub proof fn lemma_score_bounded(genes: Seq<u8>, target: Seq<u8>)
    ensures
        matching_positions(genes, target).finite(),
        score(genes, target) <= genes.len(),
        score(genes, target) <= target.len(),
{
    let m = matching_positions(genes, target);
    lemma_int_range(0, genes.len() as int);
    lemma_int_range(0, target.len() as int);
    assert(m.subset_of(set_int_range(0, genes.len() as int)));
    assert(m.subset_of(set_int_range(0, target.len() as int)));
    lemma_len_subset(m, set_int_range(0, genes.len() as int));
    lemma_len_subset(m, set_int_range(0, target.len() as int));
}

/// An empty prefix has no matching position.
pub proof fn lemma_score_empty(genes: Seq<u8>, target: Seq<u8>)
    ensures
        score(genes.take(0), target) == 0,
{
    assert(matching_positions(genes.take(0), target) =~= Set::<int>::empty());
}

/// Extending a prefix of `genes` by position `n` adds one to the score exactly
/// when that position matches.
pub proof fn lemma_score_step(genes: Seq<u8>, target: Seq<u8>, n: int)
    requires
        0 <= n < genes.len(),
        n < target.len(),
    ensures
        score(genes.take(n + 1), target) == score(genes.take(n), target) + (if genes[n]
            == target[n] {
            1nat
        } else {
            0nat
        }),
{
    let before = matching_positions(genes.take(n), target);
    let after = matching_positions(genes.take(n + 1), target);
    lemma_score_bounded(genes.take(n), target);
    assert(!before.contains(n));
    if genes[n] == target[n] {
        assert(after =~= before.insert(n));
    } else {
        assert(after =~= before);
    }
}

/// A sequence scores its full length exactly when it equals the target,
/// provided the two are equally long.
pub proof fn lemma_full_score_iff_equal(genes: Seq<u8>, target: Seq<u8>)
    requires
        genes.len() == target.len(),
    ensures
        score(genes, target) == target.len() <==> genes == target,
{
    let m = matching_positions(genes, target);
    let all = set_int_range(0, genes.len() as int);
    lemma_int_range(0, genes.len() as int);
    lemma_score_bounded(genes, target);
    if genes == target {
        assert(m =~= all);
    }
    if score(genes, target) == target.len() {
        assert(m.subset_of(all));
        lemma_subset_equality(m, all);
        assert forall|i: int| 0 <= i < genes.len() implies genes[i] == target[i] by {
            assert(all.contains(i));
            assert(m.contains(i));
        }
        assert(genes =~= target);
    }
}

/// Counts the matching positions of `genes` and `target`.
pub fn count_matches(genes: &[u8], target: &[u8]) -> (count: usize)
    ensures
        count == score(genes@, target@),
{
    let limit: usize = if genes.len() < target.len() {
        genes.len()
    } else {
        target.len()
    };
    let mut count: usize = 0;
    let mut i: usize = 0;
    proof {
        lemma_score_empty(genes@, target@);
    }
    while i < limit
        invariant
            i <= limit,
            limit <= genes.len(),
            limit <= target.len(),
            count == score(genes@.take(i as int), target@),
            count <= i,
        decreases limit - i,
    {
        proof {
            lemma_score_step(genes@, target@, i as int);
        }
        if genes[i] == target[i] {
            count = count + 1;
        }
        i = i + 1;
    }
    proof {
        assert(matching_positions(genes@.take(limit as int), target@) =~= matching_positions(
            genes@,
            target@,
        ));
    }
    count
}

} // verus!
