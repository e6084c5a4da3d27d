//! The arithmetic of a fixed-fanout index: how many entries a block holds,
//! how many values a block of each level covers, and how many blocks a level
//! needs.

use vstd::prelude::*;
use vstd::arithmetic::div_mod::{lemma_div_is_ordered, lemma_fundamental_div_mod_converse};

verus! {

/// The number of entries in one block: as many entries of `entry_size` bytes
/// as fit into `min_block` bytes, but never fewer than `min_branch`.
pub open spec fn fanout(min_block: nat, entry_size: nat, min_branch: nat) -> nat {
    if min_block / entry_size >= min_branch {
        min_block / entry_size
    } else {
        min_branch
    }
}

/// The number of values covered by one block that sits `level` levels above
/// a unit covering `base` values, when every block has `fanout` children.
/// Level 0 is the unit itself.
pub open spec fn level_coverage(base: nat, fanout: nat, level: nat) -> nat
    decreases level,
{
    if level == 0 {
        base
    } else {
        level_coverage(base, fanout, (level - 1) as nat) * fanout
    }
}

/// `height` is the number of index levels needed above the base: the least
/// level at which one block covers all `total` values.
pub open spec fn is_height(base: nat, fanout: nat, total: nat, height: nat) -> bool {
    &&& level_coverage(base, fanout, height) >= total
    &&& forall|level: nat|
        level < height ==> #[trigger] level_coverage(base, fanout, level) < total
}

/// Some level covers all `total` values with a coverage that a `u64` holds.
pub open spec fn coverage_fits(base: nat, fanout: nat, total: nat) -> bool {
    exists|level: nat| total <= #[trigger] level_coverage(base, fanout, level) <= u64::MAX
}

/// The number of blocks that one level needs when each of them covers
/// `coverage` values: `values / coverage`, rounded up.
pub open spec fn blocks_needed(values: nat, coverage: nat) -> nat {
    ((values + coverage - 1) / (coverage as int)) as nat
}

/// The number of blocks over all the levels of `coverage`.
pub open spec fn total_blocks(values: nat, coverage: Seq<u64>) -> nat
    decreases coverage.len(),
{
    if coverage.len() == 0 {
        0
    } else {
        total_blocks(values, coverage.drop_last()) + blocks_needed(
            values,
            coverage.last() as nat,
        )
    }
}

/// With a fanout of at least one, coverage never shrinks from one level to a
/// higher one.
pub proof fn lemma_level_coverage_increases(base: nat, fanout: nat, low: nat, high: nat)
    requires
        fanout >= 1,
        low <= high,
    ensures
        level_coverage(base, fanout, low) <= level_coverage(base, fanout, high),
    decreases high,
{
    if low < high {
        let below = level_coverage(base, fanout, (high - 1) as nat);
        lemma_level_coverage_increases(base, fanout, low, (high - 1) as nat);
        assert(below <= below * fanout) by (nonlinear_arith)
            requires
                fanout >= 1,
        ;
    }
}

/// With a positive base and a fanout of at least two, coverage grows
/// strictly from one level to the next.
pub proof fn lemma_level_coverage_strictly_increases(base: nat, fanout: nat, low: nat, high: nat)
    requires
        base >= 1,
        fanout >= 2,
        low < high,
    ensures
        1 <= level_coverage(base, fanout, low) < level_coverage(base, fanout, high),
    decreases high,
{
    let below = level_coverage(base, fanout, (high - 1) as nat);
    if low < high - 1 {
        lemma_level_coverage_strictly_increases(base, fanout, low, (high - 1) as nat);
    } else {
        lemma_level_coverage_increases(base, fanout, 0, low);
    }
    assert(below < below * fanout) by (nonlinear_arith)
        requires
            fanout >= 2,
            below >= 1,
    ;
}

/// The height never shrinks when the number of values grows.
pub proof fn lemma_height_monotonic(
    base: nat,
    fanout: nat,
    fewer: nat,
    more: nat,
    height_fewer: nat,
    height_more: nat,
)
    requires
        fewer <= more,
        is_height(base, fanout, fewer, height_fewer),
        is_height(base, fanout, more, height_more),
    ensures
        height_fewer <= height_more,
{
}

/// Where the number of values leaves room for one more multiplication by
/// the fanout, some level covers all the values within a `u64`.
pub proof fn lemma_coverage_fits(base: nat, fanout: nat, total: nat)
    requires
        1 <= base <= u64::MAX,
        fanout >= 2,
        total * fanout <= u64::MAX,
    ensures
        coverage_fits(base, fanout, total),
{
    if base >= total {
        assert(total <= level_coverage(base, fanout, 0) <= u64::MAX);
    } else {
        lemma_coverage_fits_above(base, fanout, total, 0);
    }
}

/// The same, for the levels above one that does not cover all the values.
proof fn lemma_coverage_fits_above(base: nat, fanout: nat, total: nat, level: nat)
    requires
        base >= 1,
        fanout >= 2,
        total * fanout <= u64::MAX,
        level_coverage(base, fanout, level) < total,
    ensures
        coverage_fits(base, fanout, total),
    decreases total - level_coverage(base, fanout, level),
{
    let here = level_coverage(base, fanout, level);
    let next = level_coverage(base, fanout, level + 1);
    lemma_level_coverage_strictly_increases(base, fanout, level, level + 1);
    assert(here * fanout <= total * fanout) by (nonlinear_arith)
        requires
            here < total,
    ;
    if next < total {
        lemma_coverage_fits_above(base, fanout, total, level + 1);
    }
}

/// Rounding up adds one block exactly when the division leaves a remainder.
pub proof fn lemma_blocks_needed(values: nat, coverage: nat)
    requires
        coverage > 0,
    ensures
        blocks_needed(values, coverage) == if values % coverage > 0 {
            values / coverage + 1
        } else {
            values / coverage
        },
{
    let c = coverage as int;
    let q = values as int / c;
    let r = values as int % c;
    assert(values == q * c + r && 0 <= r < c) by (nonlinear_arith)
        requires
            c > 0,
            q == values as int / c,
            r == values as int % c,
    ;
    if r > 0 {
        assert(values + c - 1 == (q + 1) * c + (r - 1)) by (nonlinear_arith)
            requires
                values == q * c + r,
        ;
        lemma_fundamental_div_mod_converse(values + c - 1, c, q + 1, r - 1);
    } else {
        assert(values + c - 1 == q * c + (c - 1));
        lemma_fundamental_div_mod_converse(values + c - 1, c, q, c - 1);
    }
}

/// A level never needs fewer blocks for more values.
pub proof fn lemma_blocks_needed_monotonic(fewer: nat, more: nat, coverage: nat)
    requires
        fewer <= more,
        coverage > 0,
    ensures
        blocks_needed(fewer, coverage) <= blocks_needed(more, coverage),
{
    lemma_div_is_ordered(fewer + coverage - 1, more + coverage - 1, coverage as int);
}

/// The levels of a prefix need no more blocks, for no more values, than the
/// levels of the whole sequence.
pub proof fn lemma_total_blocks_monotonic(
    fewer: nat,
    more: nat,
    prefix: Seq<u64>,
    whole: Seq<u64>,
)
    requires
        fewer <= more,
        prefix.len() <= whole.len(),
        forall|k: int| 0 <= k < prefix.len() ==> prefix[k] == whole[k] && prefix[k] > 0,
    ensures
        total_blocks(fewer, prefix) <= total_blocks(more, whole),
    decreases whole.len(),
{
    if prefix.len() < whole.len() {
        lemma_total_blocks_monotonic(fewer, more, prefix, whole.drop_last());
    } else if prefix.len() > 0 {
        lemma_total_blocks_monotonic(fewer, more, prefix.drop_last(), whole.drop_last());
        lemma_blocks_needed_monotonic(fewer, more, prefix.last() as nat);
    }
}

/// Returns the number of entries in one block: as many entries of
/// `entry_size` bytes as fit into `min_block` bytes, but at least
/// `min_branch`.
pub fn entries_per_block(min_block: u64, entry_size: u64, min_branch: u64) -> (entries: u64)
    requires
        entry_size > 0,
    ensures
        entries == fanout(min_block as nat, entry_size as nat, min_branch as nat),
        entries >= min_branch,
{
    let fitting: u64 = min_block / entry_size;
    if fitting >= min_branch {
        fitting
    } else {
        min_branch
    }
}

/// Returns the number of blocks needed to cover `values` values when each
/// block covers `coverage` of them; a block that is only partly used counts
/// as a whole one.
pub fn count_blocks(values: u64, coverage: u64) -> (blocks: u64)
    requires
        coverage > 0,
    ensures
        blocks == blocks_needed(values as nat, coverage as nat),
{
    proof {
        lemma_blocks_needed(values as nat, coverage as nat);
    }
    let quotient: u64 = values / coverage;
    let remainder: bool = values % coverage > 0;
    if remainder {
        assert(quotient < u64::MAX) by (nonlinear_arith)
            requires
                quotient == values / coverage,
                values % coverage > 0,
                coverage > 0,
        ;
        quotient + 1
    } else {
        quotient
    }
}

} // verus!
