//! The quorum rule: strictly more than two thirds of the authority list.

use vstd::prelude::*;

verus! {

/// Whether `count` votes are a supermajority among `authorities` validators.
pub open spec fn supermajority(count: int, authorities: int) -> bool {
    3 * count > 2 * authorities
}

/// Whether `count` votes are a supermajority among `authorities` validators:
/// strictly more than two thirds of them.
pub fn is_supermajority(count: usize, authorities: usize) -> (above: bool)
    ensures
        above == supermajority(count as int, authorities as int),
{
    (count as u128) * 3 > (authorities as u128) * 2
}

/// More votes keep a supermajority, and fewer validators do.
pub proof fn lemma_supermajority_monotonic(count: int, more: int, authorities: int, fewer: int)
    requires
        supermajority(count, authorities),
        count <= more,
        fewer <= authorities,
    ensures
        supermajority(more, fewer),
{
}

} // verus!
