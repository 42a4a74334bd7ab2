use bft_test::whitebox::collection::proposal_cache::{
    ProposalCache, ProposalRoundCollector, CAPACITY,
};
use bft_test::whitebox::collection::vote_cache::{VoteCache, VoteSet};
use bft_test::whitebox::types::{Proposal, Vote, VoteType};

fn generate_proposal(height: u64, round: u64, proposer: Vec<u8>) -> Proposal {
    Proposal {
        height,
        round,
        content: vec![1, 2, 3],
        proposer,
        lock_round: None,
        lock_votes: Vec::new(),
    }
}

fn vote(height: u64, round: u64, vote_type: VoteType, proposal: Vec<u8>, voter: u8) -> Vote {
    Vote {
        height,
        round,
        vote_type,
        proposal,
        voter: vec![voter],
    }
}

#[test]
fn test_proposal_cache() {
    let mut cache = ProposalCache::new();
    assert_eq!(cache.add(generate_proposal(1, 0, vec![4, 5, 6])), true);
    assert_eq!(cache.add(generate_proposal(1, 0, vec![7, 5, 6])), false);
    assert_eq!(
        cache.get_proposal(1, 0),
        Some(Proposal {
            height: 1,
            round: 0,
            content: vec![1, 2, 3],
            proposer: vec![4, 5, 6],
            lock_round: None,
            lock_votes: Vec::new(),
        })
    );
}

#[test]
fn capacity_is_sixteen() {
    assert_eq!(CAPACITY, 16);
}

#[test]
fn registry_misses_what_was_never_added() {
    let mut cache = ProposalCache::new();
    assert_eq!(cache.get_proposal(1, 0), None);
    assert!(cache.add(generate_proposal(1, 0, vec![1])));
    assert_eq!(cache.get_proposal(1, 1), None);
    assert_eq!(cache.get_proposal(2, 0), None);
}

#[test]
fn registry_round_trip_with_lock_votes() {
    let mut cache = ProposalCache::new();
    let proposal = Proposal {
        height: 7,
        round: 3,
        content: vec![9, 9],
        proposer: vec![1],
        lock_round: Some(2),
        lock_votes: vec![vote(7, 2, VoteType::Prevote, vec![9, 9], 1)],
    };
    assert!(cache.add(proposal.clone()));
    assert_eq!(cache.get_proposal(7, 3), Some(proposal));
}

#[test]
fn registry_keeps_sixteen_heights() {
    let mut cache = ProposalCache::new();
    for height in 0..16u64 {
        assert!(cache.add(generate_proposal(height, 0, vec![height as u8])));
    }
    for height in 0..16u64 {
        assert_eq!(
            cache.get_proposal(height, 0),
            Some(generate_proposal(height, 0, vec![height as u8]))
        );
    }
}

#[test]
fn registry_evicts_least_recently_used_height() {
    let mut cache = ProposalCache::new();
    for height in 0..17u64 {
        assert!(cache.add(generate_proposal(height, 0, vec![height as u8])));
    }
    assert_eq!(cache.get_proposal(0, 0), None);
    for height in 1..17u64 {
        assert!(cache.get_proposal(height, 0).is_some());
    }
}

#[test]
fn registry_lookup_refreshes_height() {
    let mut cache = ProposalCache::new();
    for height in 0..16u64 {
        assert!(cache.add(generate_proposal(height, 0, vec![])));
    }
    assert!(cache.get_proposal(0, 0).is_some());
    assert!(cache.add(generate_proposal(16, 0, vec![])));
    assert!(cache.get_proposal(0, 0).is_some());
    assert_eq!(cache.get_proposal(1, 0), None);
}

#[test]
fn registry_rejected_add_refreshes_height() {
    let mut cache = ProposalCache::new();
    for height in 0..16u64 {
        assert!(cache.add(generate_proposal(height, 0, vec![])));
    }
    assert!(!cache.add(generate_proposal(0, 0, vec![5])));
    assert!(cache.add(generate_proposal(16, 0, vec![])));
    assert_eq!(cache.get_proposal(0, 0), Some(generate_proposal(0, 0, vec![])));
    assert_eq!(cache.get_proposal(1, 0), None);
}

#[test]
fn registry_evicts_least_recently_used_round() {
    let mut cache = ProposalCache::new();
    for round in 0..17u64 {
        assert!(cache.add(generate_proposal(3, round, vec![round as u8])));
    }
    assert_eq!(cache.get_proposal(3, 0), None);
    for round in 1..17u64 {
        assert_eq!(
            cache.get_proposal(3, round),
            Some(generate_proposal(3, round, vec![round as u8]))
        );
    }
}

#[test]
fn registry_rejected_add_refreshes_round() {
    let mut cache = ProposalCache::new();
    for round in 0..16u64 {
        assert!(cache.add(generate_proposal(3, round, vec![])));
    }
    assert!(!cache.add(generate_proposal(3, 0, vec![1])));
    assert!(cache.add(generate_proposal(3, 16, vec![])));
    assert!(cache.get_proposal(3, 0).is_some());
    assert_eq!(cache.get_proposal(3, 1), None);
}

#[test]
fn registry_evicted_slot_can_be_written_again() {
    let mut cache = ProposalCache::new();
    for height in 0..17u64 {
        assert!(cache.add(generate_proposal(height, 0, vec![1])));
    }
    assert!(cache.add(generate_proposal(0, 0, vec![2])));
    assert_eq!(cache.get_proposal(0, 0), Some(generate_proposal(0, 0, vec![2])));
}

#[test]
fn collector_first_writer_wins() {
    let mut collector = ProposalRoundCollector::new();
    assert_eq!(collector.get_proposal(0), None);
    assert!(collector.add(0, generate_proposal(1, 0, vec![1])));
    assert!(!collector.add(0, generate_proposal(1, 0, vec![2])));
    assert_eq!(collector.get_proposal(0), Some(generate_proposal(1, 0, vec![1])));
    assert!(collector.add(1, generate_proposal(1, 1, vec![3])));
    assert_eq!(collector.get_proposal(1), Some(generate_proposal(1, 1, vec![3])));
}

#[test]
fn collector_lookup_refreshes_round() {
    let mut collector = ProposalRoundCollector::new();
    for round in 0..16u64 {
        assert!(collector.add(round, generate_proposal(1, round, vec![])));
    }
    assert!(collector.get_proposal(0).is_some());
    assert!(collector.add(16, generate_proposal(1, 16, vec![])));
    assert!(collector.get_proposal(0).is_some());
    assert_eq!(collector.get_proposal(1), None);
}

#[test]
fn vote_cache_absent_without_votes() {
    let cache = VoteCache::new();
    assert!(cache.get_voteset(1, 0, VoteType::Prevote).is_none());
}

#[test]
fn vote_cache_counts_by_step_and_content() {
    let mut cache = VoteCache::new();
    cache.add(vote(1, 0, VoteType::Prevote, vec![7], 1));
    cache.add(vote(1, 0, VoteType::Prevote, vec![], 2));
    cache.add(vote(1, 0, VoteType::Precommit, vec![7], 1));
    cache.add(vote(1, 0, VoteType::Prevote, vec![7], 3));
    cache.add(vote(1, 1, VoteType::Prevote, vec![8], 1));
    cache.add(vote(2, 0, VoteType::Prevote, vec![7], 1));

    let set = cache.get_voteset(1, 0, VoteType::Prevote).unwrap();
    assert_eq!(set.count, 3);
    assert_eq!(set.votes_by_proposal, vec![(vec![7], 2), (vec![], 1)]);
    assert_eq!(
        set.votes,
        vec![
            vote(1, 0, VoteType::Prevote, vec![7], 1),
            vote(1, 0, VoteType::Prevote, vec![], 2),
            vote(1, 0, VoteType::Prevote, vec![7], 3),
        ]
    );

    let set = cache.get_voteset(1, 0, VoteType::Precommit).unwrap();
    assert_eq!(set.count, 1);
    assert_eq!(set.votes_by_proposal, vec![(vec![7], 1)]);

    assert!(cache.get_voteset(1, 1, VoteType::Precommit).is_none());
    assert!(cache.get_voteset(3, 0, VoteType::Prevote).is_none());
}

#[test]
fn vote_cache_total_is_sum_of_counts() {
    let mut cache = VoteCache::new();
    let contents: Vec<Vec<u8>> = vec![vec![1], vec![], vec![2], vec![1], vec![], vec![], vec![3]];
    for (i, content) in contents.iter().enumerate() {
        cache.add(vote(5, 2, VoteType::Prevote, content.clone(), i as u8));
    }
    let set = cache.get_voteset(5, 2, VoteType::Prevote).unwrap();
    let sum: usize = set.votes_by_proposal.iter().map(|(_, n)| *n).sum();
    assert_eq!(set.count, 7);
    assert_eq!(sum, set.count);
    assert_eq!(
        set.votes_by_proposal,
        vec![(vec![1], 2), (vec![], 3), (vec![2], 1), (vec![3], 1)]
    );
}

#[test]
fn vote_cache_add_never_decreases_counts() {
    let mut cache = VoteCache::new();
    let mut last_total = 0;
    let mut last_for_content = 0;
    for i in 0..10u8 {
        let content = if i % 3 == 0 { vec![4] } else { vec![100 + i] };
        cache.add(vote(1, 0, VoteType::Prevote, content, i));
        cache.add(vote(1, 1, VoteType::Prevote, vec![4], i));
        let set = cache.get_voteset(1, 0, VoteType::Prevote).unwrap();
        let for_content = set
            .extract_polc(1, 0, VoteType::Prevote, &vec![4])
            .len();
        assert_eq!(set.count, last_total + 1);
        assert!(for_content >= last_for_content);
        last_total = set.count;
        last_for_content = for_content;
    }
    assert_eq!(last_for_content, 4);
}

#[test]
fn vote_cache_does_not_deduplicate() {
    let mut cache = VoteCache::new();
    cache.add(vote(1, 0, VoteType::Prevote, vec![7], 1));
    cache.add(vote(1, 0, VoteType::Prevote, vec![7], 1));
    let set = cache.get_voteset(1, 0, VoteType::Prevote).unwrap();
    assert_eq!(set.count, 2);
    assert_eq!(set.votes_by_proposal, vec![(vec![7], 2)]);
}

#[test]
fn extract_polc_keeps_order_and_content() {
    let mut cache = VoteCache::new();
    cache.add(vote(1, 0, VoteType::Prevote, vec![7], 3));
    cache.add(vote(1, 0, VoteType::Prevote, vec![8], 2));
    cache.add(vote(1, 0, VoteType::Prevote, vec![7], 1));
    let set = cache.get_voteset(1, 0, VoteType::Prevote).unwrap();
    assert_eq!(
        set.extract_polc(1, 0, VoteType::Prevote, &vec![7]),
        vec![
            vote(1, 0, VoteType::Prevote, vec![7], 3),
            vote(1, 0, VoteType::Prevote, vec![7], 1),
        ]
    );
    assert_eq!(set.extract_polc(1, 0, VoteType::Prevote, &vec![9]), vec![]);
    assert_eq!(set.extract_polc(1, 1, VoteType::Prevote, &vec![7]), vec![]);
    assert_eq!(set.extract_polc(1, 0, VoteType::Precommit, &vec![7]), vec![]);
    assert_eq!(set.extract_polc(2, 0, VoteType::Prevote, &vec![7]), vec![]);
}

#[test]
fn vote_cache_clear_discards_everything() {
    let mut cache = VoteCache::new();
    cache.add(vote(1, 0, VoteType::Prevote, vec![7], 1));
    cache.add(vote(1, 0, VoteType::Precommit, vec![7], 1));
    cache.clear_prevote_count();
    assert!(cache.get_voteset(1, 0, VoteType::Prevote).is_none());
    assert!(cache.get_voteset(1, 0, VoteType::Precommit).is_none());
    cache.add(vote(1, 0, VoteType::Prevote, vec![7], 1));
    assert_eq!(cache.get_voteset(1, 0, VoteType::Prevote).unwrap().count, 1);
}

#[test]
fn vote_set_add_counts_nil_votes() {
    let mut set = VoteSet::new();
    assert_eq!(set.count, 0);
    set.add(vote(1, 0, VoteType::Prevote, vec![], 1));
    set.add(vote(1, 0, VoteType::Prevote, vec![], 2));
    set.add(vote(1, 0, VoteType::Prevote, vec![1], 3));
    assert_eq!(set.count, 3);
    assert_eq!(set.votes_by_proposal, vec![(vec![], 2), (vec![1], 1)]);
}
