//! Test units with a random element, and the random draws behind them.

use crate::whitebox::correctness::test_case::BftTestUnit;
use rand::{random, thread_rng, Rng};
use vstd::prelude::*;

verus! {

/// `Rng::gen_range` on the thread's generator: some number from `low` up to,
/// and not including, `high`. Which one is left open.
#[verifier::external_body]
pub(crate) fn random_index(low: usize, high: usize) -> (index: usize)
    requires
        low < high,
    ensures
        low <= index < high,
{
    thread_rng().gen_range(low, high)
}

/// `Rng::gen` on the thread's generator: some byte.
#[verifier::external_body]
pub(crate) fn random_byte() -> u8 {
    thread_rng().gen()
}

/// `rand::random`: one of the two truth values.
#[verifier::external_body]
pub(crate) fn random_bool() -> bool {
    random::<bool>()
}

/// The unit that is `base` everywhere but at the places `first` and `second`,
/// where it is `attri`.
pub open spec fn marked(attri: u8, base: u8, first: int, second: int) -> Seq<u8> {
    Seq::new(
        6,
        |k: int|
            if k == first || k == second {
                attri
            } else {
                base
            },
    )
}

/// The unit that is `attri` everywhere but at the place `first`, where it is
/// `base_prevote`, and at the place `second`, where it is `base_precommit`.
pub open spec fn spared(
    attri: u8,
    base_prevote: u8,
    base_precommit: u8,
    first: int,
    second: int,
) -> Seq<u8> {
    Seq::new(
        6,
        |k: int|
            if k == first {
                base_prevote
            } else if k == second {
                base_precommit
            } else {
                attri
            },
    )
}

/// Whether a unit is `base` but for one prevote and one precommit, which are `attri`.
pub open spec fn one_marked(unit: Seq<u8>, attri: u8, base: u8) -> bool {
    exists|first: int, second: int|
        0 <= first < 3 && 3 <= second < 6 && unit == #[trigger] marked(attri, base, first, second)
}

/// Whether a unit is `attri` but for one prevote, which is `base_prevote`, and
/// one precommit, which is `base_precommit`.
pub open spec fn one_spared(
    unit: Seq<u8>,
    attri: u8,
    base_prevote: u8,
    base_precommit: u8,
) -> bool {
    exists|first: int, second: int|
        0 <= first < 3 && 3 <= second < 6 && unit == #[trigger] spared(
            attri,
            base_prevote,
            base_precommit,
            first,
            second,
        )
}

/// The unit with `attri` at the two given places and `base` at the others.
pub fn mark_attribute(attri: u8, base: u8, index_1: usize, index_2: usize) -> (unit: BftTestUnit)
    requires
        index_1 < 3,
        3 <= index_2 < 6,
    ensures
        unit@ == marked(attri, base, index_1 as int, index_2 as int),
{
    let mut unit = [base;6];
    unit[index_1] = attri;
    unit[index_2] = attri;
    assert(unit@ =~= marked(attri, base, index_1 as int, index_2 as int));
    unit
}

/// The unit with the two bases at the two given places and `attri` at the others.
pub fn spare_attribute(
    attri: u8,
    base_prevote: u8,
    base_precommit: u8,
    index_1: usize,
    index_2: usize,
) -> (unit: BftTestUnit)
    requires
        index_1 < 3,
        3 <= index_2 < 6,
    ensures
        unit@ == spared(attri, base_prevote, base_precommit, index_1 as int, index_2 as int),
{
    let mut unit = [attri;6];
    unit[index_1] = base_prevote;
    unit[index_2] = base_precommit;
    assert(unit@ =~= spared(attri, base_prevote, base_precommit, index_1 as int, index_2 as int));
    unit
}

/// A unit of `base` in which one prevote and one precommit, chosen at random,
/// are `attri`.
pub fn rand_attribute(attri: u8, base: u8) -> (unit: BftTestUnit)
    ensures
        one_marked(unit@, attri, base),
{
    let index_1: usize = random_index(0, 3);
    let index_2: usize = random_index(3, 6);
    mark_attribute(attri, base, index_1, index_2)
}

/// A unit of `attri` in which one prevote, chosen at random, is `base_prevote`
/// and one precommit, chosen at random, is `base_precommit`.
pub fn rand_two_attribute(attri: u8, base_prevote: u8, base_precommit: u8) -> (unit: BftTestUnit)
    ensures
        one_spared(unit@, attri, base_prevote, base_precommit),
{
    let index_1: usize = random_index(0, 3);
    let index_2: usize = random_index(3, 6);
    spare_attribute(attri, base_prevote, base_precommit, index_1, index_2)
}

} // verus!
