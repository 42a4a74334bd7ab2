use bft_test::whitebox::quorum::is_supermajority;

#[test]
fn supermajority_boundary_of_four() {
    assert!(is_supermajority(3, 4));
    assert!(!is_supermajority(2, 4));
    assert!(is_supermajority(4, 4));
    assert!(!is_supermajority(0, 4));
}

#[test]
fn supermajority_is_strictly_more_than_two_thirds() {
    assert!(!is_supermajority(2, 3));
    assert!(is_supermajority(3, 3));
    assert!(!is_supermajority(4, 6));
    assert!(is_supermajority(5, 6));
    assert!(!is_supermajority(0, 0));
    assert!(is_supermajority(1, 0));
    assert!(is_supermajority(1, 1));
}

#[test]
fn supermajority_matches_formula() {
    for n in 0..40usize {
        for c in 0..50usize {
            assert_eq!(is_supermajority(c, n), 3 * c > 2 * n);
        }
    }
}

#[test]
fn supermajority_does_not_overflow() {
    assert!(is_supermajority(usize::MAX, usize::MAX));
    assert!(!is_supermajority(usize::MAX / 3 * 2, usize::MAX));
    assert!(!is_supermajority(0, usize::MAX));
    assert!(is_supermajority(usize::MAX, 0));
}
