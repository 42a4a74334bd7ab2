use bft_test::test_case::{
    all_cases, byzantine_proposal, lock_proposal, lock_unit, no_byzantine_cases,
    one_byzantine_cases, one_offline_cases, proposal_with_lock, round_leap_cases,
    two_byzantine_cases, two_byzantine_one_offline, unit_eq, BftTest, BftTestUnit, BYZANTINE, NIL,
    NORMAL, NULL_ROUND, OFFLINE, SHOULD_COMMIT, SHOULD_NOT_COMMIT,
};
use bft_test::whitebox::correctness::util::{
    mark_attribute, rand_attribute, rand_two_attribute, spare_attribute,
};

fn should_commit(mut prevote: Vec<u8>, mut precommit: Vec<u8>) -> bool {
    prevote.push(1);
    precommit.push(1);
    let mut prevote_count: usize = 0;
    let mut precommit_count: usize = 0;
    for v in prevote.iter() {
        if v == &1 {
            prevote_count += 1;
        }
    }
    if prevote_count >= 3 {
        for v in precommit.iter() {
            if v == &1 {
                precommit_count += 1
            }
        }
        if precommit_count >= 3 {
            return true;
        }
    }
    false
}

#[test]
fn test_devide() {
    let unit: BftTestUnit = [1, 1, 1, 2, 2, 2];
    let cases: BftTest = vec![unit];
    for case in cases.iter() {
        let prevote = case[0..3].to_vec();
        let precommit = case[3..6].to_vec();
        assert_eq!(prevote, vec![1, 1, 1]);
        assert_eq!(precommit, vec![2, 2, 2]);
    }
}

#[test]
fn test_cases_retional() {
    let all_test_cases = all_cases();
    let mut commit_flag: bool = true;
    for (test_name, test_case) in all_test_cases.into_iter() {
        println!("Test retional of {:?}", test_name);
        for case in test_case.iter() {
            if case == &SHOULD_COMMIT || case == &SHOULD_NOT_COMMIT {
                if commit_flag {
                    assert_eq!(case.to_vec(), SHOULD_COMMIT);
                } else {
                    assert_eq!(case.to_vec(), SHOULD_NOT_COMMIT);
                }
            } else if case != &NULL_ROUND {
                let prevote = case[0..3].to_vec();
                let precommit = case[3..6].to_vec();
                commit_flag = should_commit(prevote, precommit);
            }
        }
    }
}

fn sum(a: [u8; 6]) -> usize {
    let mut sum = 0;
    for i in 0..6 {
        sum += a[i] as usize;
    }
    sum
}

#[test]
fn unit_test() {
    assert_eq!(sum(rand_attribute(0, 1)), 4);
    assert_eq!(sum(rand_two_attribute(0, 1, 1)), 2);
}

#[test]
fn mark_attribute_places_the_attribute() {
    assert_eq!(mark_attribute(2, 1, 0, 3), [2, 1, 1, 2, 1, 1]);
    assert_eq!(mark_attribute(0, 1, 2, 5), [1, 1, 0, 1, 1, 0]);
    assert_eq!(mark_attribute(3, 3, 1, 4), [3, 3, 3, 3, 3, 3]);
}

#[test]
fn spare_attribute_places_the_bases() {
    assert_eq!(spare_attribute(2, 1, 1, 0, 3), [1, 2, 2, 1, 2, 2]);
    assert_eq!(spare_attribute(2, 0, 3, 2, 4), [2, 2, 0, 2, 3, 2]);
}

#[test]
fn rand_attribute_marks_one_of_each_side() {
    for _ in 0..200 {
        let unit = rand_attribute(2, 1);
        assert_eq!(unit[0..3].iter().filter(|c| **c == 2).count(), 1);
        assert_eq!(unit[3..6].iter().filter(|c| **c == 2).count(), 1);
        assert_eq!(unit.iter().filter(|c| **c == 1).count(), 4);
    }
}

#[test]
fn rand_two_attribute_spares_one_of_each_side() {
    for _ in 0..200 {
        let unit = rand_two_attribute(2, 0, 3);
        assert_eq!(unit[0..3].iter().filter(|c| **c == 0).count(), 1);
        assert_eq!(unit[3..6].iter().filter(|c| **c == 3).count(), 1);
        assert_eq!(unit.iter().filter(|c| **c == 2).count(), 4);
    }
}

#[test]
fn rand_attribute_reaches_every_place() {
    let mut seen = [false; 6];
    for _ in 0..2000 {
        let unit = rand_attribute(0, 1);
        for i in 0..6 {
            if unit[i] == 0 {
                seen[i] = true;
            }
        }
    }
    assert_eq!(seen, [true; 6]);
}

#[test]
fn constants_have_their_codes() {
    assert_eq!(OFFLINE, 0);
    assert_eq!(NORMAL, 1);
    assert_eq!(BYZANTINE, 2);
    assert_eq!(NIL, 3);
    assert_eq!(NULL_ROUND, [7; 6]);
    assert_eq!(SHOULD_COMMIT, [8; 6]);
    assert_eq!(SHOULD_NOT_COMMIT, [9; 6]);
}

#[test]
fn byzantine_proposal_is_the_denylist() {
    assert_eq!(
        byzantine_proposal(),
        vec![vec![0u8; 6], vec![1u8; 6], vec![2u8; 6]]
    );
}

#[test]
fn unit_eq_compares_codes() {
    assert!(unit_eq(&[1, 2, 3, 1, 2, 3], &[1, 2, 3, 1, 2, 3]));
    assert!(!unit_eq(&[1, 2, 3, 1, 2, 3], &[1, 2, 3, 1, 2, 0]));
    assert!(!unit_eq(&[0, 2, 3, 1, 2, 3], &[1, 2, 3, 1, 2, 3]));
    assert!(unit_eq(&SHOULD_COMMIT, &[8; 6]));
}

#[test]
fn no_byzantine_cases_shape() {
    let cases = no_byzantine_cases();
    assert_eq!(cases.len(), 200);
    for (i, case) in cases.iter().enumerate() {
        if i % 2 == 0 {
            assert_eq!(*case, [1; 6]);
        } else {
            assert_eq!(*case, SHOULD_COMMIT);
        }
    }
}

#[test]
fn one_offline_cases_shape() {
    let cases = one_offline_cases();
    assert_eq!(cases.len(), 200);
    for (i, case) in cases.iter().enumerate() {
        if i % 2 == 0 {
            assert_eq!(sum(*case), 4);
            assert_eq!(case[0..3].iter().filter(|c| **c == OFFLINE).count(), 1);
            assert_eq!(case[3..6].iter().filter(|c| **c == OFFLINE).count(), 1);
        } else {
            assert_eq!(*case, SHOULD_COMMIT);
        }
    }
}

#[test]
fn one_byzantine_cases_shape() {
    let cases = one_byzantine_cases();
    assert_eq!(cases.len(), 200);
    for (i, case) in cases.iter().enumerate() {
        if i % 2 == 0 {
            assert_eq!(sum(*case), 8);
            assert_eq!(case[0..3].iter().filter(|c| **c == BYZANTINE).count(), 1);
            assert_eq!(case[3..6].iter().filter(|c| **c == BYZANTINE).count(), 1);
        } else {
            assert_eq!(*case, SHOULD_COMMIT);
        }
    }
}

#[test]
fn two_byzantine_cases_shape() {
    let cases = two_byzantine_cases();
    assert_eq!(cases.len(), 42);
    for (i, case) in cases.iter().enumerate().take(40) {
        if i % 2 == 0 {
            assert_eq!(case[0..3].iter().filter(|c| **c == BYZANTINE).count(), 2);
            assert_eq!(case[3..6].iter().filter(|c| **c == BYZANTINE).count(), 2);
            assert_eq!(case.iter().filter(|c| **c == NORMAL).count(), 2);
        } else {
            assert_eq!(*case, SHOULD_NOT_COMMIT);
        }
    }
    assert_eq!(cases[40], [1; 6]);
    assert_eq!(cases[41], SHOULD_COMMIT);
}

#[test]
fn two_byzantine_one_offline_shape() {
    let cases = two_byzantine_one_offline();
    assert_eq!(cases.len(), 22);
    for (i, case) in cases.iter().enumerate().take(20) {
        if i % 2 == 0 {
            assert_eq!(case[0..3].iter().filter(|c| **c == BYZANTINE).count(), 2);
            assert_eq!(case[0..3].iter().filter(|c| **c == OFFLINE).count(), 1);
            assert_eq!(case[3..6].iter().filter(|c| **c == BYZANTINE).count(), 2);
            assert_eq!(case[3..6].iter().filter(|c| **c == NIL).count(), 1);
        } else {
            assert_eq!(*case, SHOULD_NOT_COMMIT);
        }
    }
    assert_eq!(cases[20], [1; 6]);
    assert_eq!(cases[21], SHOULD_COMMIT);
}

#[test]
fn round_leap_cases_shape() {
    let cases = round_leap_cases();
    let period: Vec<[u8; 6]> = vec![
        [1, 2, 2, 3, 3, 3],
        SHOULD_NOT_COMMIT,
        NULL_ROUND,
        NULL_ROUND,
        NULL_ROUND,
        [1, 1, 1, 1, 1, 1],
        SHOULD_COMMIT,
    ];
    assert_eq!(cases.len(), 21);
    for (i, case) in cases.iter().enumerate() {
        assert_eq!(*case, period[i % 7]);
    }
}

#[test]
fn lock_proposal_shape() {
    let cases = lock_proposal();
    assert_eq!(cases.len(), 22);
    for (i, case) in cases.iter().enumerate().take(20) {
        if i % 2 == 0 {
            assert!(*case == [1, 1, 1, 1, 0, 2] || *case == [1, 2, 0, 1, 2, 0]);
        } else {
            assert_eq!(*case, SHOULD_NOT_COMMIT);
        }
    }
    assert_eq!(cases[20], [1; 6]);
    assert_eq!(cases[21], SHOULD_COMMIT);
}

#[test]
fn lock_unit_follows_the_coin() {
    assert_eq!(lock_unit(true), [1, 1, 1, 1, 0, 2]);
    assert_eq!(lock_unit(false), [1, 2, 0, 1, 2, 0]);
}

#[test]
fn proposal_with_lock_shape() {
    let cases = proposal_with_lock();
    let period: Vec<[u8; 6]> = vec![
        [1, 3, 0, 1, 3, 3],
        SHOULD_NOT_COMMIT,
        [1, 3, 1, 1, 3, 3],
        SHOULD_NOT_COMMIT,
        [1, 3, 0, 1, 3, 3],
        SHOULD_NOT_COMMIT,
        [0, 3, 1, 1, 3, 3],
        SHOULD_NOT_COMMIT,
        [1, 1, 1, 1, 1, 1],
        SHOULD_COMMIT,
    ];
    assert_eq!(cases.len(), 100);
    for (i, case) in cases.iter().enumerate() {
        assert_eq!(*case, period[i % 10]);
    }
}

#[test]
fn all_cases_names_and_order() {
    let catalogue = all_cases();
    let names: Vec<String> = catalogue.iter().map(|(name, _)| name.clone()).collect();
    assert_eq!(
        names,
        vec![
            "test no byzantine case",
            "test one byzantine case",
            "test one offline case",
            "test two byzantine case",
            "test two byzantine and one offline case",
            "test lock proposal",
        ]
    );
    let lengths: Vec<usize> = catalogue.iter().map(|(_, cases)| cases.len()).collect();
    assert_eq!(lengths, vec![200, 200, 200, 42, 22, 22]);
}

#[test]
fn further_scenarios_are_rational() {
    for cases in vec![round_leap_cases(), proposal_with_lock()] {
        let mut commit_flag = true;
        for case in cases.iter() {
            if case == &SHOULD_COMMIT || case == &SHOULD_NOT_COMMIT {
                assert_eq!(commit_flag, case == &SHOULD_COMMIT);
            } else if case != &NULL_ROUND {
                commit_flag = should_commit(case[0..3].to_vec(), case[3..6].to_vec());
            }
        }
    }
}
