//! The behaviour codes, the units made of them, and the catalogue of scenarios.

use crate::whitebox::correctness::util::{
    marked, one_marked, one_spared, rand_attribute, rand_two_attribute, random_bool, spared,
};
use crate::whitebox::quorum::supermajority;
use vstd::prelude::*;

verus! {

/// A basic test unit: the behaviour of the three other validators at prevote,
/// then at precommit.
pub type BftTestUnit = [u8; 6];

/// A BFT test case: a sequence of units.
pub type BftTest = Vec<BftTestUnit>;

/// The validator sends nothing.
pub const OFFLINE: u8 = 0;

/// The validator votes for the round's proposal, or for the lock if one is held.
pub const NORMAL: u8 = 1;

/// The validator votes for a denylisted value.
pub const BYZANTINE: u8 = 2;

/// The validator votes for nothing.
pub const NIL: u8 = 3;

/// The round ends without a proposal or a vote.
pub const NULL_ROUND: [u8; 6] = [7, 7, 7, 7, 7, 7];

/// The node has to commit now.
pub const SHOULD_COMMIT: [u8; 6] = [8, 8, 8, 8, 8, 8];

/// The node must not commit now.
pub const SHOULD_NOT_COMMIT: [u8; 6] = [9, 9, 9, 9, 9, 9];

/// The unit that holds `code` six times.
pub open spec fn uniform(code: u8) -> Seq<u8> {
    Seq::new(6, |k: int| code)
}

/// Whether two units hold the same codes.
pub fn unit_eq(a: &BftTestUnit, b: &BftTestUnit) -> (same: bool)
    ensures
        same == (a@ == b@),
{
    let same = a[0] == b[0] && a[1] == b[1] && a[2] == b[2] && a[3] == b[3] && a[4] == b[4] && a[5]
        == b[5];
    proof {
        if same {
            assert(a@ =~= b@);
        } else {
            assert(a@[0] == a[0] && a@[1] == a[1] && a@[2] == a[2]);
        }
    }
    same
}

/// The contents that the framework treats as Byzantine.
pub fn byzantine_proposal() -> (denylist: Vec<Vec<u8>>)
    ensures
        denylist@.len() == 3,
        denylist@[0]@ == uniform(0),
        denylist@[1]@ == uniform(1),
        denylist@[2]@ == uniform(2),
{
    let denylist = vec![
        vec![0u8, 0, 0, 0, 0, 0],
        vec![1u8, 1, 1, 1, 1, 1],
        vec![2u8, 2, 2, 2, 2, 2],
    ];
    assert(denylist@[0]@ =~= uniform(0));
    assert(denylist@[1]@ =~= uniform(1));
    assert(denylist@[2]@ =~= uniform(2));
    denylist
}

/// The number of a unit's first three codes, from the place `from` on, that are
/// [`NORMAL`].
pub open spec fn normal_votes(unit: Seq<u8>, from: int) -> int {
    (if unit[from] == NORMAL {
        1int
    } else {
        0int
    }) + (if unit[from + 1] == NORMAL {
        1int
    } else {
        0int
    }) + (if unit[from + 2] == NORMAL {
        1int
    } else {
        0int
    })
}

/// Whether a round run by this unit can end in a commit among four validators:
/// the validators that vote normally, and the node with them, are a
/// supermajority at prevote and again at precommit.
pub open spec fn expects_commit(unit: Seq<u8>) -> bool {
    &&& supermajority(normal_votes(unit, 0) + 1, 4)
    &&& supermajority(normal_votes(unit, 3) + 1, 4)
}

/// A unit that is normal but for one prevote and one precommit is a round of
/// votes that can end in a commit.
pub proof fn lemma_one_marked_commits(unit: Seq<u8>, attri: u8)
    requires
        one_marked(unit, attri, NORMAL),
        attri <= 3,
    ensures
        expects_commit(unit),
        is_behaviour(unit),
{
    let (first, second) = choose|first: int, second: int|
        0 <= first < 3 && 3 <= second < 6 && unit == #[trigger] marked(
            attri,
            NORMAL,
            first,
            second,
        );
    assert(unit == marked(attri, NORMAL, first, second));
    assert(unit[0] == attri || unit[0] == NORMAL);
    assert(uniform(7)[0] == 7 && uniform(8)[0] == 8 && uniform(9)[0] == 9);
}

/// A unit in which all but one prevote and one precommit are not normal is a
/// round of votes that cannot end in a commit.
pub proof fn lemma_one_spared_stalls(unit: Seq<u8>, attri: u8, base_prevote: u8, base_precommit: u8)
    requires
        one_spared(unit, attri, base_prevote, base_precommit),
        attri != NORMAL,
        attri <= 3,
    ensures
        !expects_commit(unit),
        is_behaviour(unit),
{
    let (first, second) = choose|first: int, second: int|
        0 <= first < 3 && 3 <= second < 6 && unit == #[trigger] spared(
            attri,
            base_prevote,
            base_precommit,
            first,
            second,
        );
    assert(unit == spared(attri, base_prevote, base_precommit, first, second));
    assert(unit[1] == attri || unit[2] == attri);
    assert(uniform(7)[1] == 7 && uniform(8)[1] == 8 && uniform(9)[1] == 9);
    assert(uniform(7)[2] == 7 && uniform(8)[2] == 8 && uniform(9)[2] == 9);
}

/// Whether a unit stands for a round of votes: it is none of the three sentinels.
pub open spec fn is_behaviour(unit: Seq<u8>) -> bool {
    unit != uniform(7) && unit != uniform(8) && unit != uniform(9)
}

/// Whether every check in a scenario follows a round of votes whose outcome
/// it states: a commit is asked for after a round that can end in one, and
/// ruled out after a round that cannot.
pub open spec fn sentinels_justified(cases: Seq<BftTestUnit>) -> bool {
    forall|i: int|
        #![trigger cases[i]]
        0 <= i < cases.len() ==> {
            &&& cases[i]@ == uniform(8) ==> i > 0 && is_behaviour(cases[i - 1]@) && expects_commit(
                cases[i - 1]@,
            )
            &&& cases[i]@ == uniform(9) ==> i > 0 && is_behaviour(cases[i - 1]@) && !expects_commit(
                cases[i - 1]@,
            )
        }
}

/// Whether a scenario is `rounds` rounds of a unit that fits `fits`, each
/// followed by the sentinel of `check`, and then, if `closing`, a clean round
/// and the sentinel to commit.
pub open spec fn checked_rounds(
    cases: Seq<BftTestUnit>,
    rounds: int,
    fits: spec_fn(Seq<u8>) -> bool,
    check: u8,
    closing: bool,
) -> bool {
    &&& cases.len() == 2 * rounds + if closing {
        2int
    } else {
        0int
    }
    &&& forall|i: int|
        #![trigger cases[i]]
        0 <= i < 2 * rounds ==> if i % 2 == 0 {
            fits(cases[i]@)
        } else {
            cases[i]@ == uniform(check)
        }
    &&& closing ==> cases[2 * rounds]@ == uniform(NORMAL) && cases[2 * rounds + 1]@ == uniform(8)
}

/// The scenario without Byzantine behaviour: a hundred clean rounds, each
/// followed by the sentinel to commit.
pub open spec fn no_byzantine_scenario(cases: Seq<BftTestUnit>) -> bool {
    checked_rounds(cases, 100, |unit: Seq<u8>| unit == uniform(NORMAL), 8, false)
}

/// The scenario with one validator offline: a hundred rounds in which one
/// prevote and one precommit are missing, each followed by the sentinel to commit.
pub open spec fn one_offline_scenario(cases: Seq<BftTestUnit>) -> bool {
    checked_rounds(cases, 100, |unit: Seq<u8>| one_marked(unit, OFFLINE, NORMAL), 8, false)
}

/// The scenario with one Byzantine validator: a hundred rounds in which one
/// prevote and one precommit are Byzantine, each followed by the sentinel to commit.
pub open spec fn one_byzantine_scenario(cases: Seq<BftTestUnit>) -> bool {
    checked_rounds(cases, 100, |unit: Seq<u8>| one_marked(unit, BYZANTINE, NORMAL), 8, false)
}

/// The scenario with two Byzantine validators: twenty rounds in which all but
/// one prevote and one precommit are Byzantine, each followed by the sentinel
/// not to commit, then a clean round and the sentinel to commit.
pub open spec fn two_byzantine_scenario(cases: Seq<BftTestUnit>) -> bool {
    checked_rounds(
        cases,
        20,
        |unit: Seq<u8>| one_spared(unit, BYZANTINE, NORMAL, NORMAL),
        9,
        true,
    )
}

/// The scenario with two Byzantine validators and one offline: ten rounds in
/// which all prevotes but an absent one and all precommits but a nil one are
/// Byzantine, each followed by the sentinel not to commit, then a clean round
/// and the sentinel to commit.
pub open spec fn two_byzantine_one_offline_scenario(cases: Seq<BftTestUnit>) -> bool {
    checked_rounds(cases, 10, |unit: Seq<u8>| one_spared(unit, BYZANTINE, OFFLINE, NIL), 9, true)
}

/// The scenario of proposals under a lock: ten rounds, each of one of two
/// units, each followed by the sentinel not to commit, then a clean round and
/// the sentinel to commit.
pub open spec fn lock_proposal_scenario(cases: Seq<BftTestUnit>) -> bool {
    checked_rounds(
        cases,
        10,
        |unit: Seq<u8>| unit == seq![1u8, 1, 1, 1, 0, 2] || unit == seq![1u8, 2, 0, 1, 2, 0],
        9,
        true,
    )
}

/// A scenario without Byzantine behaviour: a hundred rounds in which every
/// validator votes normally and the node has to commit.
pub fn no_byzantine_cases() -> (cases: BftTest)
    ensures
        no_byzantine_scenario(cases@),
{
    let mut cases: Vec<BftTestUnit> = Vec::new();
    for n in 0..100usize
        invariant
            checked_rounds(cases@, n as int, |unit: Seq<u8>| unit == uniform(NORMAL), 8, false),
    {
        let unit: BftTestUnit = [1, 1, 1, 1, 1, 1];
        assert(unit@ =~= uniform(NORMAL));
        assert(SHOULD_COMMIT@ =~= uniform(8));
        cases.push(unit);
        cases.push(SHOULD_COMMIT);
    }
    cases
}

/// A scenario with one validator offline: a hundred rounds in which one
/// prevote and one precommit are missing and the node has to commit.
pub fn one_offline_cases() -> (cases: BftTest)
    ensures
        one_offline_scenario(cases@),
{
    let mut cases: Vec<BftTestUnit> = Vec::new();
    for n in 0..100usize
        invariant
            checked_rounds(
                cases@,
                n as int,
                |unit: Seq<u8>| one_marked(unit, OFFLINE, NORMAL),
                8,
                false,
            ),
    {
        assert(SHOULD_COMMIT@ =~= uniform(8));
        cases.push(rand_attribute(OFFLINE, NORMAL));
        cases.push(SHOULD_COMMIT);
    }
    cases
}

/// A scenario with one Byzantine validator: a hundred rounds in which one
/// prevote and one precommit are Byzantine and the node has to commit.
pub fn one_byzantine_cases() -> (cases: BftTest)
    ensures
        one_byzantine_scenario(cases@),
{
    let mut cases: Vec<BftTestUnit> = Vec::new();
    for n in 0..100usize
        invariant
            checked_rounds(
                cases@,
                n as int,
                |unit: Seq<u8>| one_marked(unit, BYZANTINE, NORMAL),
                8,
                false,
            ),
    {
        assert(SHOULD_COMMIT@ =~= uniform(8));
        cases.push(rand_attribute(BYZANTINE, NORMAL));
        cases.push(SHOULD_COMMIT);
    }
    cases
}

/// A scenario with two Byzantine validators: twenty rounds in which all but
/// one prevote and one precommit are Byzantine and the node must not commit,
/// then one clean round in which it has to.
pub fn two_byzantine_cases() -> (cases: BftTest)
    ensures
        two_byzantine_scenario(cases@),
{
    let mut cases: Vec<BftTestUnit> = Vec::new();
    for n in 0..20usize
        invariant
            checked_rounds(
                cases@,
                n as int,
                |unit: Seq<u8>| one_spared(unit, BYZANTINE, NORMAL, NORMAL),
                9,
                false,
            ),
    {
        assert(SHOULD_NOT_COMMIT@ =~= uniform(9));
        cases.push(rand_two_attribute(BYZANTINE, NORMAL, NORMAL));
        cases.push(SHOULD_NOT_COMMIT);
    }
    let unit: BftTestUnit = [1, 1, 1, 1, 1, 1];
    assert(unit@ =~= uniform(NORMAL));
    assert(SHOULD_COMMIT@ =~= uniform(8));
    cases.push(unit);
    cases.push(SHOULD_COMMIT);
    cases
}

/// A scenario with two Byzantine validators and one offline: ten rounds in
/// which all prevotes but an absent one and all precommits but a nil one are
/// Byzantine and the node must not commit, then one clean round in which it
/// has to.
pub fn two_byzantine_one_offline() -> (cases: BftTest)
    ensures
        two_byzantine_one_offline_scenario(cases@),
{
    let mut cases: Vec<BftTestUnit> = Vec::new();
    for n in 0..10usize
        invariant
            checked_rounds(
                cases@,
                n as int,
                |unit: Seq<u8>| one_spared(unit, BYZANTINE, OFFLINE, NIL),
                9,
                false,
            ),
    {
        assert(SHOULD_NOT_COMMIT@ =~= uniform(9));
        cases.push(rand_two_attribute(BYZANTINE, OFFLINE, NIL));
        cases.push(SHOULD_NOT_COMMIT);
    }
    let unit: BftTestUnit = [1, 1, 1, 1, 1, 1];
    assert(unit@ =~= uniform(NORMAL));
    assert(SHOULD_COMMIT@ =~= uniform(8));
    cases.push(unit);
    cases.push(SHOULD_COMMIT);
    cases
}

/// The unit at a place of the round-leap scenario.
pub open spec fn round_leap_unit(i: int) -> Seq<u8> {
    let k = i % 7;
    if k == 0 {
        seq![1u8, 2, 2, 3, 3, 3]
    } else if k == 1 {
        uniform(9)
    } else if k <= 4 {
        uniform(7)
    } else if k == 5 {
        uniform(NORMAL)
    } else {
        uniform(8)
    }
}

/// The round-leap scenario: twenty-one units, each the one of its place.
pub open spec fn round_leap_scenario(cases: Seq<BftTestUnit>) -> bool {
    &&& cases.len() == 21
    &&& forall|i: int| 0 <= i < 21 ==> (#[trigger] cases[i])@ == round_leap_unit(i)
}

/// The round-leap scenario, three times over: a round that cannot commit, a
/// check that the node did not, three rounds that pass without activity, and a
/// clean round in which the node has to commit.
pub fn round_leap_cases() -> (cases: BftTest)
    ensures
        round_leap_scenario(cases@),
{
    let mut cases: Vec<BftTestUnit> = Vec::new();
    for n in 0..3usize
        invariant
            cases@.len() == 7 * n,
            forall|i: int| 0 <= i < 7 * n ==> (#[trigger] cases@[i])@ == round_leap_unit(i),
    {
        let mixed: BftTestUnit = [1, 2, 2, 3, 3, 3];
        let clean: BftTestUnit = [1, 1, 1, 1, 1, 1];
        assert(mixed@ =~= seq![1u8, 2, 2, 3, 3, 3]);
        assert(clean@ =~= uniform(NORMAL));
        assert(SHOULD_COMMIT@ =~= uniform(8));
        assert(SHOULD_NOT_COMMIT@ =~= uniform(9));
        assert(NULL_ROUND@ =~= uniform(7));
        cases.push(mixed);
        cases.push(SHOULD_NOT_COMMIT);
        cases.push(NULL_ROUND);
        cases.push(NULL_ROUND);
        cases.push(NULL_ROUND);
        cases.push(clean);
        cases.push(SHOULD_COMMIT);
    }
    cases
}

/// The unit of a round that sets a lock and cannot commit: one of two, by the coin.
pub fn lock_unit(coin: bool) -> (unit: BftTestUnit)
    ensures
        unit@ == if coin {
            seq![1u8, 1, 1, 1, 0, 2]
        } else {
            seq![1u8, 2, 0, 1, 2, 0]
        },
{
    let unit: BftTestUnit = if coin {
        [1, 1, 1, 1, 0, 2]
    } else {
        [1, 2, 0, 1, 2, 0]
    };
    assert(unit@ =~= if coin {
        seq![1u8, 1, 1, 1, 0, 2]
    } else {
        seq![1u8, 2, 0, 1, 2, 0]
    });
    unit
}

/// A scenario of proposals under a lock: ten rounds, each of one of two units
/// chosen at random, in which the node must not commit, then one clean round
/// in which it has to.
pub fn lock_proposal() -> (cases: BftTest)
    ensures
        lock_proposal_scenario(cases@),
{
    let mut cases: Vec<BftTestUnit> = Vec::new();
    for n in 0..10usize
        invariant
            checked_rounds(
                cases@,
                n as int,
                |unit: Seq<u8>|
                    unit == seq![1u8, 1, 1, 1, 0, 2] || unit == seq![1u8, 2, 0, 1, 2, 0],
                9,
                false,
            ),
    {
        assert(SHOULD_NOT_COMMIT@ =~= uniform(9));
        cases.push(lock_unit(random_bool()));
        cases.push(SHOULD_NOT_COMMIT);
    }
    let unit: BftTestUnit = [1, 1, 1, 1, 1, 1];
    assert(unit@ =~= uniform(NORMAL));
    assert(SHOULD_COMMIT@ =~= uniform(8));
    cases.push(unit);
    cases.push(SHOULD_COMMIT);
    cases
}

/// The unit at a place of the scenario of proposals that carry a lock.
pub open spec fn proposal_with_lock_unit(i: int) -> Seq<u8> {
    let k = i % 10;
    if k == 0 || k == 4 {
        seq![1u8, 3, 0, 1, 3, 3]
    } else if k == 2 {
        seq![1u8, 3, 1, 1, 3, 3]
    } else if k == 6 {
        seq![0u8, 3, 1, 1, 3, 3]
    } else if k == 8 {
        uniform(NORMAL)
    } else if k == 9 {
        uniform(8)
    } else {
        uniform(9)
    }
}

/// The scenario of proposals that carry a lock: a hundred units, each the one
/// of its place.
pub open spec fn proposal_with_lock_scenario(cases: Seq<BftTestUnit>) -> bool {
    &&& cases.len() == 100
    &&& forall|i: int| 0 <= i < 100 ==> (#[trigger] cases[i])@ == proposal_with_lock_unit(i)
}

/// A scenario of proposals that carry a lock, ten times over: four rounds
/// that cannot commit, each checked, and a clean round in which the node has
/// to commit.
pub fn proposal_with_lock() -> (cases: BftTest)
    ensures
        proposal_with_lock_scenario(cases@),
{
    let mut cases: Vec<BftTestUnit> = Vec::new();
    for n in 0..10usize
        invariant
            cases@.len() == 10 * n,
            forall|i: int|
                0 <= i < 10 * n ==> (#[trigger] cases@[i])@ == proposal_with_lock_unit(i),
    {
        let first: BftTestUnit = [1, 3, 0, 1, 3, 3];
        let second: BftTestUnit = [1, 3, 1, 1, 3, 3];
        let fourth: BftTestUnit = [0, 3, 1, 1, 3, 3];
        let clean: BftTestUnit = [1, 1, 1, 1, 1, 1];
        assert(first@ =~= seq![1u8, 3, 0, 1, 3, 3]);
        assert(second@ =~= seq![1u8, 3, 1, 1, 3, 3]);
        assert(fourth@ =~= seq![0u8, 3, 1, 1, 3, 3]);
        assert(clean@ =~= uniform(NORMAL));
        assert(SHOULD_COMMIT@ =~= uniform(8));
        assert(SHOULD_NOT_COMMIT@ =~= uniform(9));
        cases.push(first);
        cases.push(SHOULD_NOT_COMMIT);
        cases.push(second);
        cases.push(SHOULD_NOT_COMMIT);
        cases.push(first);
        cases.push(SHOULD_NOT_COMMIT);
        cases.push(fourth);
        cases.push(SHOULD_NOT_COMMIT);
        cases.push(clean);
        cases.push(SHOULD_COMMIT);
    }
    cases
}

/// The six named scenarios that a full run goes through, in its order.
pub fn all_cases() -> (catalogue: Vec<(String, BftTest)>)
    ensures
        catalogue@.len() == 6,
        catalogue@[0].0@ == "test no byzantine case"@,
        no_byzantine_scenario(catalogue@[0].1@),
        catalogue@[1].0@ == "test one byzantine case"@,
        one_byzantine_scenario(catalogue@[1].1@),
        catalogue@[2].0@ == "test one offline case"@,
        one_offline_scenario(catalogue@[2].1@),
        catalogue@[3].0@ == "test two byzantine case"@,
        two_byzantine_scenario(catalogue@[3].1@),
        catalogue@[4].0@ == "test two byzantine and one offline case"@,
        two_byzantine_one_offline_scenario(catalogue@[4].1@),
        catalogue@[5].0@ == "test lock proposal"@,
        lock_proposal_scenario(catalogue@[5].1@),
{
    let mut catalogue: Vec<(String, BftTest)> = Vec::new();
    catalogue.push(("test no byzantine case".to_owned(), no_byzantine_cases()));
    catalogue.push(("test one byzantine case".to_owned(), one_byzantine_cases()));
    catalogue.push(("test one offline case".to_owned(), one_offline_cases()));
    catalogue.push(("test two byzantine case".to_owned(), two_byzantine_cases()));
    catalogue.push(
        ("test two byzantine and one offline case".to_owned(), two_byzantine_one_offline()),
    );
    catalogue.push(("test lock proposal".to_owned(), lock_proposal()));
    catalogue
}

/// In rounds that are each followed by their check, every check is justified
/// where the rounds' units are rounds of votes whose outcome the check states.
pub proof fn lemma_checked_rounds_justified(
    cases: Seq<BftTestUnit>,
    rounds: int,
    fits: spec_fn(Seq<u8>) -> bool,
    check: u8,
    closing: bool,
)
    requires
        checked_rounds(cases, rounds, fits, check, closing),
        check == 8 || check == 9,
        forall|unit: Seq<u8>|
            #[trigger] fits(unit) ==> is_behaviour(unit) && (expects_commit(unit) <==> check == 8),
    ensures
        sentinels_justified(cases),
{
    assert(uniform(7)[0] == 7 && uniform(8)[0] == 8 && uniform(9)[0] == 9 && uniform(NORMAL)[0]
        == 1);
    assert(expects_commit(uniform(NORMAL)));
    assert forall|i: int| #![trigger cases[i]] 0 <= i < cases.len() implies {
        &&& cases[i]@ == uniform(8) ==> i > 0 && is_behaviour(cases[i - 1]@) && expects_commit(
            cases[i - 1]@,
        )
        &&& cases[i]@ == uniform(9) ==> i > 0 && is_behaviour(cases[i - 1]@) && !expects_commit(
            cases[i - 1]@,
        )
    } by {
        if i < 2 * rounds {
            if i % 2 == 0 {
                assert(fits(cases[i]@));
            } else {
                assert(fits(cases[i - 1]@));
            }
        } else if i == 2 * rounds + 1 {
            assert(cases[i - 1]@ == uniform(NORMAL));
        }
    }
}

/// Every check in a scenario of the catalogue, and in the two further ones,
/// is justified.
pub proof fn lemma_catalogue_justified(cases: Seq<BftTestUnit>)
    requires
        no_byzantine_scenario(cases) || one_offline_scenario(cases) || one_byzantine_scenario(cases)
            || two_byzantine_scenario(cases) || two_byzantine_one_offline_scenario(cases)
            || lock_proposal_scenario(cases) || round_leap_scenario(cases)
            || proposal_with_lock_scenario(cases),
    ensures
        sentinels_justified(cases),
{
    assert(uniform(7)[0] == 7 && uniform(8)[0] == 8 && uniform(9)[0] == 9 && uniform(NORMAL)[0]
        == 1);
    assert(expects_commit(uniform(NORMAL)));
    if no_byzantine_scenario(cases) {
        let fits = |unit: Seq<u8>| unit == uniform(NORMAL);
        lemma_checked_rounds_justified(cases, 100, fits, 8, false);
    } else if one_offline_scenario(cases) {
        let fits = |unit: Seq<u8>| one_marked(unit, OFFLINE, NORMAL);
        assert forall|unit: Seq<u8>| #[trigger] fits(unit) implies is_behaviour(unit)
            && expects_commit(unit) by {
            lemma_one_marked_commits(unit, OFFLINE);
        }
        lemma_checked_rounds_justified(cases, 100, fits, 8, false);
    } else if one_byzantine_scenario(cases) {
        let fits = |unit: Seq<u8>| one_marked(unit, BYZANTINE, NORMAL);
        assert forall|unit: Seq<u8>| #[trigger] fits(unit) implies is_behaviour(unit)
            && expects_commit(unit) by {
            lemma_one_marked_commits(unit, BYZANTINE);
        }
        lemma_checked_rounds_justified(cases, 100, fits, 8, false);
    } else if two_byzantine_scenario(cases) {
        let fits = |unit: Seq<u8>| one_spared(unit, BYZANTINE, NORMAL, NORMAL);
        assert forall|unit: Seq<u8>| #[trigger] fits(unit) implies is_behaviour(unit)
            && !expects_commit(unit) by {
            lemma_one_spared_stalls(unit, BYZANTINE, NORMAL, NORMAL);
        }
        lemma_checked_rounds_justified(cases, 20, fits, 9, true);
    } else if two_byzantine_one_offline_scenario(cases) {
        let fits = |unit: Seq<u8>| one_spared(unit, BYZANTINE, OFFLINE, NIL);
        assert forall|unit: Seq<u8>| #[trigger] fits(unit) implies is_behaviour(unit)
            && !expects_commit(unit) by {
            lemma_one_spared_stalls(unit, BYZANTINE, OFFLINE, NIL);
        }
        lemma_checked_rounds_justified(cases, 10, fits, 9, true);
    } else if lock_proposal_scenario(cases) {
        let fits = |unit: Seq<u8>|
            unit == seq![1u8, 1, 1, 1, 0, 2] || unit == seq![1u8, 2, 0, 1, 2, 0];
        lemma_checked_rounds_justified(cases, 10, fits, 9, true);
    } else if round_leap_scenario(cases) {
        assert forall|i: int| #![trigger cases[i]] 0 <= i < cases.len() implies {
            &&& cases[i]@ == uniform(8) ==> i > 0 && is_behaviour(cases[i - 1]@) && expects_commit(
                cases[i - 1]@,
            )
            &&& cases[i]@ == uniform(9) ==> i > 0 && is_behaviour(cases[i - 1]@) && !expects_commit(
                cases[i - 1]@,
            )
        } by {
            assert(cases[i]@ == round_leap_unit(i));
            if i > 0 {
                assert(cases[i - 1]@ == round_leap_unit(i - 1));
            }
        }
    } else {
        assert forall|i: int| #![trigger cases[i]] 0 <= i < cases.len() implies {
            &&& cases[i]@ == uniform(8) ==> i > 0 && is_behaviour(cases[i - 1]@) && expects_commit(
                cases[i - 1]@,
            )
            &&& cases[i]@ == uniform(9) ==> i > 0 && is_behaviour(cases[i - 1]@) && !expects_commit(
                cases[i - 1]@,
            )
        } by {
            assert(cases[i]@ == proposal_with_lock_unit(i));
            if i > 0 {
                assert(cases[i - 1]@ == proposal_with_lock_unit(i - 1));
            }
        }
    }
}

} // verus!
