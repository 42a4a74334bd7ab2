use bft_test::error::{decimal_text, join, join_two, BftError, FrameError};
use bft_test::whitebox::types::{Proposal, Vote, VoteType};

fn vote() -> Vote {
    Vote {
        height: 3,
        round: 1,
        vote_type: VoteType::Precommit,
        proposal: vec![1, 2],
        voter: vec![9],
    }
}

fn proposal() -> Proposal {
    Proposal {
        height: 3,
        round: 1,
        content: vec![1, 2, 3],
        proposer: vec![4],
        lock_round: Some(0),
        lock_votes: vec![vote()],
    }
}

#[test]
fn decimal_text_of_numbers() {
    assert_eq!(decimal_text(0), "0");
    assert_eq!(decimal_text(7), "7");
    assert_eq!(decimal_text(10), "10");
    assert_eq!(decimal_text(1234567890), "1234567890");
    assert_eq!(decimal_text(u64::MAX), "18446744073709551615");
    for n in 0..2000u64 {
        assert_eq!(decimal_text(n), format!("{:?}", n));
    }
}

#[test]
fn join_puts_texts_in_a_row() {
    assert_eq!(join("a", "bc", "d"), "abcd");
    assert_eq!(join("", "", ""), "");
    assert_eq!(join_two("x", "yz"), "xyz");
}

#[test]
fn messages_with_a_height() {
    assert_eq!(
        BftError::CommitDiff(12).to_string(),
        "BFT Error (Commit Different at Height 12)!"
    );
    assert_eq!(
        BftError::CommitIncorrect(0).to_string(),
        "BFT Error (Commit Differ from Proposal at Height 0)!"
    );
    assert_eq!(
        BftError::CommitInvalid(7).to_string(),
        "BFT Error (No Proposal at Height 7)!"
    );
    assert_eq!(
        BftError::MislaidCommit(100).to_string(),
        "BFT Error (Mislaid Commit of Height 100)!"
    );
    assert_eq!(
        BftError::MultipleCommit(9).to_string(),
        "BFT Error (Multiple Commit at Height 9)!"
    );
    assert_eq!(
        BftError::NoCommit(31).to_string(),
        "BFT Error (No commit at height 31)!"
    );
}

#[test]
fn messages_with_height_and_round() {
    assert_eq!(
        BftError::ShouldNotPrecommit(5, 2).to_string(),
        "BFT Error (Do Precommit without +2/3 Prevotes at Height 5, Round 2)!"
    );
    assert_eq!(
        BftError::PrecommitErr(5, 20).to_string(),
        "BFT Error (Precommit Error at Height 5, Round 20)!"
    );
    assert_eq!(
        BftError::PrecommitDiffPoLC(15, 2).to_string(),
        "BFT Error (Precommit Different From PoLC at Height 15, Round2)!"
    );
    assert_eq!(
        BftError::IllegalProposal(1, 0).to_string(),
        "BFT Error (Illegal Proposal at Height 1, Round 0)!"
    );
    assert_eq!(
        BftError::GetNoVote(4, 3, VoteType::Prevote).to_string(),
        "BFT Error (Get No Prevote Vote at Height 4, Round 3)!"
    );
    assert_eq!(
        BftError::GetNoVote(4, 3, VoteType::Precommit).to_string(),
        "BFT Error (Get No Precommit Vote at Height 4, Round 3)!"
    );
}

#[test]
fn messages_with_a_message() {
    assert_eq!(
        BftError::IllegalVote(vote()).to_string(),
        "BFT Error (Illegal Vote Vote { height: 3, round: 1, vote_type: Precommit, \
         proposal: [1, 2], voter: [9] })!"
    );
    assert_eq!(
        BftError::IllegalVote(vote()).to_string(),
        format!("BFT Error (Illegal Vote {:?})!", vote())
    );
    assert_eq!(
        BftError::AbnormalProposal(proposal()).to_string(),
        format!("BFT Error (Abnormal Proposal Occur {:?})!", proposal())
    );
    assert_eq!(
        BftError::AbnormalVote(vote()).to_string(),
        "BFT Error (Abnormal Vote Occur Vote { height: 3, round: 1, vote_type: Precommit, \
         proposal: [1, 2], voter: [9] })!"
    );
    assert_eq!(
        BftError::AbnormalProposal(proposal()).to_string(),
        "BFT Error (Abnormal Proposal Occur Proposal { height: 3, round: 1, \
         content: [1, 2, 3], proposer: [4], lock_round: Some(0), lock_votes: \
         [Vote { height: 3, round: 1, vote_type: Precommit, proposal: [1, 2], voter: [9] }] })!"
    );
}

#[test]
fn describe_is_the_message_without_frame() {
    assert_eq!(BftError::NoCommit(2).describe(), "No commit at height 2");
    assert_eq!(
        BftError::IllegalVote(vote()).describe(),
        format!("Illegal Vote {:?}", vote())
    );
}

#[test]
fn frame_error_message() {
    assert_eq!(
        FrameError::SQLiteErr(14).to_string(),
        "Frame Error (SQLite Error 14)I"
    );
    assert_eq!(
        FrameError::SQLiteErr(0).to_string(),
        "Frame Error (SQLite Error 0)I"
    );
}

#[test]
fn errors_have_debug() {
    assert_eq!(format!("{:?}", BftError::NoCommit(2)), "NoCommit(2)");
    assert_eq!(format!("{:?}", FrameError::SQLiteErr(2)), "SQLiteErr(2)");
}
