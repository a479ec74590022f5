//! How many nodes a tree has.
//!
//! A node of depth `0` stands alone; a node of depth `d > 0` carries
//! `branch_factor` subtrees of depth `d - 1`. In depth-first order a subtree
//! occupies a contiguous run of indices, so the size of a subtree is also the
//! stride from one child to the next.

use vstd::prelude::*;
use vstd::arithmetic::power2::{lemma2_to64, lemma_pow2_strictly_increases, lemma_pow2_unfold, pow2};
use crate::config::MAX_DEPTH;

verus! {

/// The most nodes a tree within [`MAX_DEPTH`] can have: `2^13 - 1`.
pub const NODE_LIMIT: usize = 8191;

/// The number of nodes of a subtree whose root has `depth` levels below it.
pub open spec fn subtree_size(branch_factor: u32, depth: nat) -> nat
    decreases depth,
{
    if depth == 0 {
        1
    } else {
        1 + branch_factor as nat * subtree_size(branch_factor, (depth - 1) as nat)
    }
}

/// One level more: a chain grows by one node, a fork doubles and adds one.
pub proof fn lemma_size_step(branch_factor: u32, depth: nat)
    ensures
        branch_factor == 1 ==> subtree_size(branch_factor, depth + 1) == 1 + subtree_size(
            branch_factor,
            depth,
        ),
        branch_factor == 2 ==> subtree_size(branch_factor, depth + 1) == 1 + 2 * subtree_size(
            branch_factor,
            depth,
        ),
        subtree_size(branch_factor, depth) >= 1,
{
    let below = subtree_size(branch_factor, depth);
    assert(subtree_size(branch_factor, depth + 1) == 1 + branch_factor as nat * below);
    if branch_factor == 1 {
        assert(branch_factor as nat * below == below) by (nonlinear_arith)
            requires
                branch_factor == 1,
        ;
    }
    if branch_factor == 2 {
        assert(branch_factor as nat * below == 2 * below) by (nonlinear_arith)
            requires
                branch_factor == 2,
        ;
    }
}

/// A chain of depth `d` has `d + 1` nodes.
pub proof fn lemma_chain_size(depth: nat)
    ensures
        subtree_size(1, depth) == depth + 1,
    decreases depth,
{
    if depth > 0 {
        lemma_chain_size((depth - 1) as nat);
        lemma_size_step(1, (depth - 1) as nat);
    }
}

/// A fork of depth `d` is a complete binary tree: `2^(d+1) - 1` nodes.
pub proof fn lemma_fork_size(depth: nat)
    ensures
        subtree_size(2, depth) == pow2(depth + 1) - 1,
    decreases depth,
{
    if depth == 0 {
        lemma2_to64();
    } else {
        lemma_fork_size((depth - 1) as nat);
        lemma_size_step(2, (depth - 1) as nat);
        lemma_pow2_unfold(depth + 1);
    }
}

/// Within the depth limit no tree outgrows [`NODE_LIMIT`].
pub proof fn lemma_size_within_limit(branch_factor: u32, depth: nat)
    requires
        branch_factor == 1 || branch_factor == 2,
        depth <= MAX_DEPTH,
    ensures
        1 <= subtree_size(branch_factor, depth) <= NODE_LIMIT,
{
    lemma2_to64();
    if branch_factor == 1 {
        lemma_chain_size(depth);
    } else {
        lemma_fork_size(depth);
        if depth + 1 < 13 {
            lemma_pow2_strictly_increases(depth + 1, 13);
        }
    }
}

/// Computes the size of a subtree.
pub fn subtree_len(branch_factor: u32, depth: u32) -> (n: usize)
    requires
        branch_factor == 1 || branch_factor == 2,
        depth <= MAX_DEPTH,
    ensures
        n == subtree_size(branch_factor, depth as nat),
        1 <= n <= NODE_LIMIT,
{
    let mut n: usize = 1;
    let mut level: u32 = 0;
    while level < depth
        invariant
            level <= depth,
            depth <= MAX_DEPTH,
            branch_factor == 1 || branch_factor == 2,
            n == subtree_size(branch_factor, level as nat),
            1 <= n <= NODE_LIMIT,
        decreases depth - level,
    {
        proof {
            lemma_size_step(branch_factor, level as nat);
            lemma_size_within_limit(branch_factor, (level + 1) as nat);
        }
        if branch_factor == 2 {
            n = 1 + 2 * n;
        } else {
            n = 1 + n;
        }
        level = level + 1;
    }
    n
}

} // verus!
