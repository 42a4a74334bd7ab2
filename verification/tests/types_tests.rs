use bft_test::whitebox::collection::util::Msg;
use bft_test::whitebox::types::{
    byte_lists_clone, byte_lists_eq, bytes_clone, bytes_eq, votes_clone, votes_eq, Commit, Feed,
    FrameRecv, FrameSend, Proposal, Status, Vote, VoteType,
};
use std::collections::HashSet;

fn vote(voter: u8) -> Vote {
    Vote {
        height: 3,
        round: 1,
        vote_type: VoteType::Prevote,
        proposal: vec![1, 2],
        voter: vec![voter],
    }
}

fn proposal() -> Proposal {
    Proposal {
        height: 3,
        round: 1,
        content: vec![1, 2, 3],
        proposer: vec![4],
        lock_round: Some(0),
        lock_votes: vec![vote(1), vote(2)],
    }
}

#[test]
fn bytes_compare_and_copy() {
    assert!(bytes_eq(&vec![], &vec![]));
    assert!(bytes_eq(&vec![1, 2], &vec![1, 2]));
    assert!(!bytes_eq(&vec![1, 2], &vec![1, 3]));
    assert!(!bytes_eq(&vec![1, 2], &vec![1]));
    assert_eq!(bytes_clone(&vec![5, 6, 7]), vec![5, 6, 7]);
    assert!(byte_lists_eq(&vec![vec![1], vec![]], &vec![vec![1], vec![]]));
    assert!(!byte_lists_eq(&vec![vec![1], vec![]], &vec![vec![], vec![1]]));
    assert!(!byte_lists_eq(&vec![vec![1]], &vec![vec![1], vec![]]));
    assert_eq!(byte_lists_clone(&vec![vec![1], vec![2, 3]]), vec![vec![1], vec![2, 3]]);
}

#[test]
fn votes_compare_and_copy() {
    assert!(votes_eq(&vec![vote(1), vote(2)], &vec![vote(1), vote(2)]));
    assert!(!votes_eq(&vec![vote(1), vote(2)], &vec![vote(2), vote(1)]));
    assert!(!votes_eq(&vec![vote(1)], &vec![]));
    assert_eq!(votes_clone(&vec![vote(1), vote(2)]), vec![vote(1), vote(2)]);
}

#[test]
fn vote_equality_is_by_every_field() {
    let base = vote(1);
    assert_eq!(base, base.clone());
    let mut other = base.clone();
    other.height = 4;
    assert_ne!(base, other);
    let mut other = base.clone();
    other.round = 0;
    assert_ne!(base, other);
    let mut other = base.clone();
    other.vote_type = VoteType::Precommit;
    assert_ne!(base, other);
    let mut other = base.clone();
    other.proposal = vec![];
    assert_ne!(base, other);
    let mut other = base.clone();
    other.voter = vec![2];
    assert_ne!(base, other);
}

#[test]
fn proposal_equality_is_by_every_field() {
    let base = proposal();
    assert_eq!(base, base.clone());
    let mut other = base.clone();
    other.height = 4;
    assert_ne!(base, other);
    let mut other = base.clone();
    other.round = 4;
    assert_ne!(base, other);
    let mut other = base.clone();
    other.content = vec![1, 2];
    assert_ne!(base, other);
    let mut other = base.clone();
    other.proposer = vec![];
    assert_ne!(base, other);
    let mut other = base.clone();
    other.lock_round = None;
    assert_ne!(base, other);
    let mut other = base.clone();
    other.lock_votes.pop();
    assert_ne!(base, other);
}

#[test]
fn other_messages_compare_and_copy() {
    let commit = Commit {
        node: 1,
        height: 2,
        result: vec![3],
    };
    let feed = Feed {
        height: 2,
        proposal: vec![3],
    };
    let status = Status {
        height: 2,
        authority_list: vec![vec![1], vec![2]],
    };
    assert_eq!(commit, commit.clone());
    assert_ne!(commit, Commit { node: 0, ..commit.clone() });
    assert_ne!(commit, Commit { height: 0, ..commit.clone() });
    assert_ne!(commit, Commit { result: vec![], ..commit.clone() });
    assert_eq!(feed, feed.clone());
    assert_ne!(feed, Feed { height: 1, ..feed.clone() });
    assert_ne!(feed, Feed { proposal: vec![4], ..feed.clone() });
    assert_eq!(status, status.clone());
    assert_ne!(status, Status { height: 1, ..status.clone() });
    assert_ne!(status, Status { authority_list: vec![vec![1]], ..status.clone() });
}

#[test]
fn frames_compare_by_kind_and_content() {
    let p = FrameRecv::Proposal(proposal());
    let v = FrameRecv::Vote(vote(1));
    assert_eq!(p, p.clone());
    assert_eq!(v, v.clone());
    assert_ne!(p, v);
    assert_ne!(v, FrameRecv::Vote(vote(2)));

    let frames = vec![
        FrameSend::Proposal(proposal()),
        FrameSend::Vote(vote(1)),
        FrameSend::Feed(Feed { height: 1, proposal: vec![] }),
        FrameSend::Status(Status { height: 1, authority_list: vec![] }),
    ];
    for (i, a) in frames.iter().enumerate() {
        for (j, b) in frames.iter().enumerate() {
            assert_eq!(a == b, i == j);
        }
        assert_eq!(*a, a.clone());
    }
}

#[test]
fn records_compare_by_kind_and_content() {
    let records = vec![
        Msg::Proposal(proposal()),
        Msg::Vote(vote(1)),
        Msg::Feed(Feed { height: 1, proposal: vec![] }),
        Msg::Status(Status { height: 1, authority_list: vec![] }),
        Msg::Commit(Commit { node: 0, height: 1, result: vec![] }),
    ];
    for (i, a) in records.iter().enumerate() {
        for (j, b) in records.iter().enumerate() {
            assert_eq!(a == b, i == j);
        }
        assert_eq!(*a, a.clone());
    }
}

#[test]
fn messages_can_be_hashed() {
    let mut seen = HashSet::new();
    assert!(seen.insert(FrameRecv::Vote(vote(1))));
    assert!(!seen.insert(FrameRecv::Vote(vote(1))));
    assert!(seen.insert(FrameRecv::Vote(vote(2))));
    assert!(seen.insert(FrameRecv::Proposal(proposal())));
    assert!(seen.contains(&FrameRecv::Proposal(proposal())));
    assert_eq!(seen.len(), 3);
}
