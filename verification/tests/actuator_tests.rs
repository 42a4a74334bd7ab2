use bft_test::error::BftError;
use bft_test::test_case::{
    all_cases, byzantine_proposal, lock_proposal, no_byzantine_cases, one_byzantine_cases,
    one_offline_cases, proposal_with_lock, round_leap_cases, two_byzantine_cases,
    two_byzantine_one_offline, BftTest, NULL_ROUND, SHOULD_COMMIT, SHOULD_NOT_COMMIT,
};
use bft_test::whitebox::actuator::{
    contains_bytes, random_content, Actuator, Phase, Progress, CONTENT_LENGTH,
    DEFAULT_COMMIT_WAIT, NO_COMMIT_WAIT, POLC_FLOOR,
};
use bft_test::whitebox::collection::util::Msg;
use bft_test::whitebox::types::{
    Commit, Feed, FrameRecv, FrameSend, Proposal, Status, Support, Vote, VoteType,
};
use std::cell::RefCell;
use std::collections::VecDeque;

/// How a simulated node strays from the protocol.
#[derive(Clone, Copy, Debug, PartialEq)]
enum Fault {
    Honest,
    /// Every message is handed out twice.
    Replay,
    NeverCommit,
    AlwaysCommit,
    CommitDenylisted,
    CommitOther,
    ProposalForPrevote,
    PrecommitForPrevote,
    DenylistedPrevote,
    PrecommitOther,
    VoteForProposal,
    LockWithoutLock,
    ProposerOutOfRange,
}

struct NodeState {
    fault: Fault,
    height: u64,
    round: u64,
    content: Vec<u8>,
    lock: Option<(u64, Vec<u8>)>,
    prevotes: Vec<Vote>,
    precommits: Vec<Vote>,
    own_prevote: Option<Vote>,
    own_precommit: Option<Vote>,
    outbox: VecDeque<FrameRecv>,
    last: Option<FrameRecv>,
    replayed: bool,
    sent: Vec<FrameSend>,
    proposer_calls: usize,
}

/// A node that follows the protocol among four validators, but for its fault.
struct Node {
    state: RefCell<NodeState>,
}

const ME: u8 = 10;

fn authorities() -> Vec<Vec<u8>> {
    vec![vec![ME], vec![11], vec![12], vec![13]]
}

impl Node {
    fn new(fault: Fault) -> Self {
        Node {
            state: RefCell::new(NodeState {
                fault,
                height: 0,
                round: 0,
                content: Vec::new(),
                lock: None,
                prevotes: Vec::new(),
                precommits: Vec::new(),
                own_prevote: None,
                own_precommit: None,
                outbox: VecDeque::new(),
                last: None,
                replayed: false,
                sent: Vec::new(),
                proposer_calls: 0,
            }),
        }
    }

    fn sent(&self) -> Vec<FrameSend> {
        self.state.borrow().sent.clone()
    }
}

fn agreed(votes: &[Vote]) -> Option<Vec<u8>> {
    for vote in votes {
        let count = votes.iter().filter(|v| v.proposal == vote.proposal).count();
        if count >= 3 {
            return Some(vote.proposal.clone());
        }
    }
    None
}

impl NodeState {
    fn stance(&self) -> Vec<u8> {
        match &self.lock {
            Some((_, content)) => content.clone(),
            None => self.content.clone(),
        }
    }

    fn prevote(&mut self) {
        let mut vote = Vote {
            height: self.height,
            round: self.round,
            vote_type: VoteType::Prevote,
            proposal: self.stance(),
            voter: vec![ME],
        };
        match self.fault {
            Fault::PrecommitForPrevote => vote.vote_type = VoteType::Precommit,
            Fault::DenylistedPrevote => vote.proposal = vec![1; 6],
            Fault::ProposalForPrevote => {
                self.outbox.push_back(FrameRecv::Proposal(Proposal {
                    height: self.height,
                    round: self.round,
                    content: vec![42],
                    proposer: vec![ME],
                    lock_round: None,
                    lock_votes: Vec::new(),
                }));
                return;
            }
            _ => {}
        }
        self.own_prevote = Some(vote.clone());
        self.outbox.push_back(FrameRecv::Vote(vote));
    }

    fn precommit(&mut self) -> FrameRecv {
        let mut votes = self.prevotes.clone();
        votes.extend(self.own_prevote.clone());
        let mut proposal = Vec::new();
        if let Some(content) = agreed(&votes) {
            if content.is_empty() {
                self.lock = None;
            } else {
                self.lock = Some((self.round, content.clone()));
            }
            proposal = content;
        }
        if self.fault == Fault::PrecommitOther {
            proposal = vec![42];
        }
        let vote = Vote {
            height: self.height,
            round: self.round,
            vote_type: VoteType::Precommit,
            proposal,
            voter: vec![ME],
        };
        self.own_precommit = Some(vote.clone());
        FrameRecv::Vote(vote)
    }
}

impl Support for Node {
    fn send(&self, msg: FrameSend) {
        let mut state = self.state.borrow_mut();
        state.sent.push(msg.clone());
        match msg {
            FrameSend::Status(_) => {}
            FrameSend::Feed(feed) => {
                state.content = feed.proposal.clone();
                let mut proposal = Proposal {
                    height: state.height,
                    round: state.round,
                    content: state.stance(),
                    proposer: vec![ME],
                    lock_round: state.lock.as_ref().map(|(round, _)| *round),
                    lock_votes: Vec::new(),
                };
                match state.fault {
                    Fault::VoteForProposal => {
                        let vote = Vote {
                            height: state.height,
                            round: state.round,
                            vote_type: VoteType::Prevote,
                            proposal: feed.proposal,
                            voter: vec![ME],
                        };
                        state.outbox.push_back(FrameRecv::Vote(vote));
                        return;
                    }
                    Fault::LockWithoutLock => proposal.lock_round = Some(0),
                    _ => {}
                }
                state.outbox.push_back(FrameRecv::Proposal(proposal));
                state.prevote();
            }
            FrameSend::Proposal(proposal) => {
                state.content = proposal.content;
                state.prevote();
            }
            FrameSend::Vote(vote) => {
                if vote.height == state.height && vote.round == state.round {
                    match vote.vote_type {
                        VoteType::Prevote => state.prevotes.push(vote),
                        VoteType::Precommit => state.precommits.push(vote),
                    }
                }
            }
        }
    }

    fn recv(&self) -> FrameRecv {
        let mut state = self.state.borrow_mut();
        if state.fault == Fault::Replay && !state.replayed {
            if let Some(last) = state.last.clone() {
                state.replayed = true;
                return last;
            }
        }
        let msg = match state.outbox.pop_front() {
            Some(msg) => msg,
            None => {
                if state.own_precommit.is_some() {
                    panic!("the node has nothing more to say in this round");
                }
                state.precommit()
            }
        };
        state.last = Some(msg.clone());
        state.replayed = false;
        msg
    }

    fn try_get_commit(&self) -> Option<Commit> {
        let state = self.state.borrow_mut();
        let mut votes = state.precommits.clone();
        votes.extend(state.own_precommit.clone());
        let result = match state.fault {
            Fault::NeverCommit => None,
            Fault::AlwaysCommit => Some(state.stance()),
            Fault::CommitDenylisted => Some(vec![2; 6]),
            Fault::CommitOther => Some(vec![42]),
            _ => agreed(&votes).filter(|content| !content.is_empty()),
        };
        result.map(|result| Commit {
            node: 0,
            height: state.height,
            result,
        })
    }

    fn stop(&self) {}

    fn proposer(&self, height: u64, round: u64) -> usize {
        if self.state.borrow().fault == Fault::ProposerOutOfRange {
            return 4;
        }
        ((height + round) % 4) as usize
    }

    fn cal_proposer(&self, height: u64, round: u64) -> usize {
        let index = self.proposer(height, round);
        let mut state = self.state.borrow_mut();
        state.proposer_calls += 1;
        if height != state.height {
            state.lock = None;
            state.last = None;
        }
        state.height = height;
        state.round = round;
        state.content = Vec::new();
        state.prevotes.clear();
        state.precommits.clear();
        state.own_prevote = None;
        state.own_precommit = None;
        state.outbox.clear();
        index
    }
}

/// Runs a scenario as a driver does, without the waits. Hands back the
/// records of the audit trail with the outcome.
fn run(actuator: &mut Actuator<Node>, cases: &BftTest) -> (Result<(), BftError>, Vec<Msg>) {
    let mut journal = Vec::new();
    actuator.init();
    journal.extend(actuator.take_journal());
    for case in cases.iter() {
        let mut progress = actuator.start(*case);
        loop {
            journal.extend(actuator.take_journal());
            match progress {
                Progress::Finished => break,
                Progress::BadProposer(_) => panic!("Proposer index beyond authority list!"),
                Progress::Pending(_) => {
                    assert!(actuator.can_resume());
                    match actuator.resume() {
                        Ok(next) => progress = next,
                        Err(error) => {
                            journal.extend(actuator.take_journal());
                            return (Err(error), journal);
                        }
                    }
                }
            }
        }
    }
    (Ok(()), journal)
}

fn actuator(fault: Fault) -> Actuator<Node> {
    Actuator::new(Node::new(fault), 0, 0, authorities())
}

fn assert_contents_not_denylisted(journal: &[Msg]) {
    let denylist = byzantine_proposal();
    let mut made = 0;
    for record in journal {
        match record {
            Msg::Feed(feed) => {
                made += 1;
                assert_eq!(feed.proposal.len(), 6);
                assert!(!denylist.contains(&feed.proposal));
            }
            Msg::Proposal(proposal) => {
                made += 1;
                assert_eq!(proposal.content.len(), 6);
                assert!(!denylist.contains(&proposal.content));
            }
            _ => {}
        }
    }
    assert!(made > 0);
}

#[test]
fn new_actuator_state() {
    let act = actuator(Fault::Honest);
    assert_eq!(act.height(), 0);
    assert_eq!(act.round(), 0);
    assert_eq!(act.phase(), Phase::Idle);
    assert_eq!(act.lock_round(), None);
    assert_eq!(act.lock_proposal(), None);
    assert_eq!(act.proposal(), Vec::<u8>::new());
    assert_eq!(act.authority_count(), 4);
    assert_eq!(act.sleep_time(), 150);
    assert_eq!(act.progress(), Progress::Finished);
    assert!(act.can_resume());
    assert!(act.voteset(0, 0, VoteType::Prevote).is_none());
}

#[test]
fn constants_of_the_actuator() {
    assert_eq!(DEFAULT_COMMIT_WAIT, 150);
    assert_eq!(NO_COMMIT_WAIT, 120);
    assert_eq!(POLC_FLOOR, 3);
    assert_eq!(CONTENT_LENGTH, 6);
}

#[test]
fn setters_change_what_they_name() {
    let mut act = actuator(Fault::Honest);
    act.set_sleep_time(500);
    assert_eq!(act.sleep_time(), 500);
    assert_eq!(act.start(SHOULD_COMMIT), Progress::Pending(500));
    act.set_authority_list(vec![vec![1], vec![2], vec![3], vec![4], vec![5]]);
    assert_eq!(act.authority_count(), 5);
    assert_eq!(act.sleep_time(), 500);
}

#[test]
fn init_sends_genesis_status_and_goes_up() {
    let mut act = actuator(Fault::Honest);
    act.init();
    assert_eq!(act.height(), 1);
    assert_eq!(act.round(), 0);
    let status = Status {
        height: 0,
        authority_list: authorities(),
    };
    assert_eq!(
        act.take_journal(),
        vec![Msg::Status(status.clone()), Msg::Status(status.clone())]
    );
    assert_eq!(act.function().sent(), vec![FrameSend::Status(status)]);
    assert_eq!(act.take_journal(), vec![]);
}

#[test]
fn random_content_has_six_bytes() {
    let mut distinct = Vec::new();
    for _ in 0..50 {
        let content = random_content();
        assert_eq!(content.len(), 6);
        if !distinct.contains(&content) {
            distinct.push(content);
        }
    }
    assert!(distinct.len() > 1);
}

#[test]
fn contains_bytes_finds_members() {
    let list = byzantine_proposal();
    assert!(contains_bytes(&list, &vec![0; 6]));
    assert!(contains_bytes(&list, &vec![2; 6]));
    assert!(!contains_bytes(&list, &vec![3; 6]));
    assert!(!contains_bytes(&list, &vec![0; 5]));
    assert!(!contains_bytes(&Vec::new(), &vec![]));
}

#[test]
fn sentinels_begin_with_their_wait() {
    let mut act = actuator(Fault::Honest);
    assert_eq!(act.start(SHOULD_COMMIT), Progress::Pending(150));
    assert_eq!(act.phase(), Phase::Commit);
    assert_eq!(act.start(SHOULD_NOT_COMMIT), Progress::Pending(120));
    assert_eq!(act.phase(), Phase::NoCommit);
    assert_eq!(act.start(NULL_ROUND), Progress::Finished);
    assert_eq!(act.phase(), Phase::Idle);
    assert_eq!(act.round(), 1);
    assert_eq!(act.function().state.borrow().proposer_calls, 0);
}

#[test]
fn round_of_votes_asks_for_the_proposer() {
    let mut act = actuator(Fault::Honest);
    assert_eq!(act.start([1; 6]), Progress::Pending(0));
    assert_eq!(act.phase(), Phase::Content);
    assert_eq!(act.function().state.borrow().proposer_calls, 1);
}

#[test]
fn bad_proposer_begins_nothing() {
    let mut act = actuator(Fault::ProposerOutOfRange);
    act.init();
    assert_eq!(act.start([1; 6]), Progress::BadProposer(4));
    assert_eq!(act.phase(), Phase::Idle);
    assert_eq!(act.begin([1; 6], 7), Progress::BadProposer(7));
    assert_eq!(act.begin([1; 6], 3), Progress::Pending(0));
}

#[test]
fn denylisted_candidate_is_not_taken() {
    let mut act = actuator(Fault::Honest);
    act.init();
    act.take_journal();
    assert_eq!(act.begin([1; 6], 1), Progress::Pending(0));
    for content in byzantine_proposal() {
        act.offer_content(content);
        assert_eq!(act.phase(), Phase::Content);
        assert_eq!(act.take_journal(), vec![]);
    }
    act.offer_content(vec![]);
    assert_eq!(act.phase(), Phase::Content);
    assert_eq!(act.take_journal(), vec![]);
    act.offer_content(vec![3; 6]);
    assert_eq!(act.phase(), Phase::Prevote);
    assert_eq!(act.proposal(), vec![3; 6]);
}

#[test]
fn offer_outside_content_phase_changes_nothing() {
    let mut act = actuator(Fault::Honest);
    act.offer_content(vec![3; 6]);
    assert_eq!(act.phase(), Phase::Idle);
    assert_eq!(act.proposal(), Vec::<u8>::new());
    assert_eq!(act.take_journal(), vec![]);
}

#[test]
fn feed_goes_to_the_node_when_it_proposes() {
    let mut act = actuator(Fault::Honest);
    act.init();
    act.take_journal();
    assert_eq!(act.begin([1; 6], 0), Progress::Pending(0));
    act.offer_content(vec![5; 6]);
    assert_eq!(act.phase(), Phase::Proposal);
    let feed = Feed {
        height: 1,
        proposal: vec![5; 6],
    };
    assert_eq!(act.take_journal(), vec![Msg::Feed(feed.clone())]);
    assert_eq!(act.function().sent().last(), Some(&FrameSend::Feed(feed)));
}

#[test]
fn proposal_and_prevotes_follow_codes() {
    let mut act = actuator(Fault::Honest);
    act.init();
    act.take_journal();
    act.begin([1, 2, 3, 0, 1, 1], 2);
    act.offer_content(vec![5; 6]);
    let proposal = Proposal {
        height: 1,
        round: 0,
        content: vec![5; 6],
        proposer: vec![12],
        lock_round: None,
        lock_votes: Vec::new(),
    };
    let vote = |content: Vec<u8>, voter: u8| Vote {
        height: 1,
        round: 0,
        vote_type: VoteType::Prevote,
        proposal: content,
        voter: vec![voter],
    };
    assert_eq!(
        act.take_journal(),
        vec![
            Msg::Proposal(proposal.clone()),
            Msg::Vote(vote(vec![5; 6], 11)),
            Msg::Vote(vote(vec![1; 6], 12)),
            Msg::Vote(vote(vec![], 13)),
        ]
    );
    assert_eq!(act.registered(1, 0), Some(proposal));
    let set = act.voteset(1, 0, VoteType::Prevote).unwrap();
    assert_eq!(set.count, 3);
    assert_eq!(
        set.votes_by_proposal,
        vec![(vec![5; 6], 1), (vec![1; 6], 1), (vec![], 1)]
    );
}

#[test]
fn offline_validators_send_nothing() {
    let mut act = actuator(Fault::Honest);
    act.init();
    act.begin([0, 0, 0, 1, 1, 1], 1);
    act.offer_content(vec![5; 6]);
    assert!(act.voteset(1, 0, VoteType::Prevote).is_none());
}

#[test]
fn generate_votes_takes_three_codes_at_most() {
    let mut act = actuator(Fault::Honest);
    act.generate_prevote(vec![3, 3, 3, 3, 3]);
    assert_eq!(act.voteset(0, 0, VoteType::Prevote).unwrap().count, 3);
    act.generate_precommit(vec![3]);
    assert_eq!(act.voteset(0, 0, VoteType::Precommit).unwrap().count, 1);
    act.generate_precommit(vec![]);
    assert_eq!(act.voteset(0, 0, VoteType::Precommit).unwrap().count, 1);
}

#[test]
fn no_byzantine_scenario_commits_every_round() {
    let mut act = actuator(Fault::Honest);
    let (result, journal) = run(&mut act, &no_byzantine_cases());
    assert!(result.is_ok());
    assert_eq!(act.height(), 101);
    assert_eq!(act.round(), 0);
    let commits = journal.iter().filter(|r| matches!(r, Msg::Commit(_))).count();
    assert_eq!(commits, 100);
    assert_contents_not_denylisted(&journal);
}

#[test]
fn one_offline_scenario_commits_every_round() {
    let mut act = actuator(Fault::Honest);
    let (result, _) = run(&mut act, &one_offline_cases());
    assert!(result.is_ok());
    assert_eq!(act.height(), 101);
}

#[test]
fn one_byzantine_scenario_commits_every_round() {
    let mut act = actuator(Fault::Honest);
    let (result, journal) = run(&mut act, &one_byzantine_cases());
    assert!(result.is_ok());
    assert_eq!(act.height(), 101);
    assert_contents_not_denylisted(&journal);
}

#[test]
fn two_byzantine_scenario_commits_only_at_the_end() {
    let cases = two_byzantine_cases();
    let mut act = actuator(Fault::Honest);
    let (result, journal) = run(&mut act, &cases[0..40].to_vec());
    assert!(result.is_ok());
    assert_eq!(act.height(), 1);
    assert_eq!(act.round(), 20);
    assert_eq!(act.lock_round(), None);
    assert_eq!(journal.iter().filter(|r| matches!(r, Msg::Commit(_))).count(), 0);

    let mut act = actuator(Fault::Honest);
    let (result, journal) = run(&mut act, &cases);
    assert!(result.is_ok());
    assert_eq!(act.height(), 2);
    assert_eq!(act.round(), 0);
    assert_eq!(journal.iter().filter(|r| matches!(r, Msg::Commit(_))).count(), 1);
}

#[test]
fn two_byzantine_one_offline_scenario_passes() {
    let mut act = actuator(Fault::Honest);
    let (result, _) = run(&mut act, &two_byzantine_one_offline());
    assert!(result.is_ok());
    assert_eq!(act.height(), 2);
}

#[test]
fn lock_proposal_scenario_passes() {
    for _ in 0..20 {
        let mut act = actuator(Fault::Honest);
        let (result, _) = run(&mut act, &lock_proposal());
        assert!(result.is_ok());
        assert_eq!(act.height(), 2);
    }
}

#[test]
fn round_leap_scenario_passes() {
    let mut act = actuator(Fault::Honest);
    let (result, _) = run(&mut act, &round_leap_cases());
    assert!(result.is_ok());
    assert_eq!(act.height(), 4);
}

#[test]
fn proposal_with_lock_scenario_passes() {
    let mut act = actuator(Fault::Honest);
    let (result, _) = run(&mut act, &proposal_with_lock());
    assert!(result.is_ok());
    assert_eq!(act.height(), 11);
}

#[test]
fn whole_catalogue_passes() {
    for (name, cases) in all_cases() {
        let mut act = actuator(Fault::Honest);
        let (result, _) = run(&mut act, &cases);
        assert!(result.is_ok(), "{}", name);
    }
}

#[test]
fn lock_is_carried_over_and_proposed_again() {
    let mut act = actuator(Fault::Honest);
    let cases = vec![
        [1, 1, 1, 1, 0, 2],
        SHOULD_NOT_COMMIT,
        NULL_ROUND,
        NULL_ROUND,
    ];
    let (result, journal) = run(&mut act, &cases);
    assert!(result.is_ok());
    let locked = act.lock_proposal().unwrap();
    assert_eq!(locked.len(), 6);
    assert_eq!(act.lock_round(), Some(0));
    assert_eq!(act.round(), 3);
    assert_eq!(act.proposal(), locked);
    assert_contents_not_denylisted(&journal);

    // Rounds 3 to 6 of height 1: each proposer in turn, the node among them.
    let mut rounds = Vec::new();
    for _ in 0..4 {
        rounds.push([1, 2, 0, 1, 2, 0]);
        rounds.push(SHOULD_NOT_COMMIT);
    }
    let mut journal = Vec::new();
    let mut fed = 0;
    let mut proposed = 0;
    for case in rounds.iter() {
        let mut progress = act.start(*case);
        while progress != Progress::Finished {
            progress = act.resume().unwrap();
        }
        journal.extend(act.take_journal());
    }
    for record in journal.iter() {
        match record {
            Msg::Feed(feed) => {
                fed += 1;
                assert_eq!(feed.proposal, locked);
            }
            Msg::Proposal(proposal) => {
                proposed += 1;
                assert_eq!(proposal.content, locked);
                assert_eq!(proposal.lock_round, Some(0));
                assert_eq!(proposal.lock_votes.len(), 4);
            }
            _ => {}
        }
    }
    assert_eq!(fed, 1);
    assert_eq!(proposed, 3);
    assert_eq!(act.lock_proposal(), Some(locked));
    assert_eq!(act.round(), 7);
}

#[test]
fn nil_supermajority_ends_the_lock() {
    let mut act = actuator(Fault::Honest);
    let cases = vec![[1, 1, 1, 1, 0, 2], SHOULD_NOT_COMMIT];
    let (result, _) = run(&mut act, &cases);
    assert!(result.is_ok());
    assert!(act.lock_round().is_some());
    // Three nil prevotes in round 1: the lock ends, whatever the node votes.
    act.begin([3, 3, 3, 3, 3, 3], 1);
    act.offer_content(vec![]);
    assert_eq!(act.phase(), Phase::Prevote);
    let own = Vote {
        height: 1,
        round: 1,
        vote_type: VoteType::Prevote,
        proposal: vec![],
        voter: vec![ME],
    };
    assert_eq!(act.deliver(FrameRecv::Vote(own)).unwrap(), Progress::Pending(0));
    assert_eq!(act.lock_round(), None);
    assert_eq!(act.lock_proposal(), None);
    assert_eq!(act.proposal(), Vec::<u8>::new());
}

#[test]
fn replayed_messages_are_counted_once() {
    let mut act = actuator(Fault::Replay);
    let cases = vec![[1, 1, 1, 1, 1, 1]];
    let (result, _) = run(&mut act, &cases);
    assert!(result.is_ok());
    let prevotes = act.voteset(1, 0, VoteType::Prevote).unwrap();
    assert_eq!(prevotes.count, 4);
    assert_eq!(prevotes.votes_by_proposal.len(), 1);
    assert_eq!(prevotes.votes_by_proposal[0].1, 4);
    let precommits = act.voteset(1, 0, VoteType::Precommit).unwrap();
    assert_eq!(precommits.count, 4);
    assert!(act.function().state.borrow().replayed || act.function().state.borrow().last.is_some());
}

#[test]
fn replayed_scenario_still_commits() {
    let mut act = actuator(Fault::Replay);
    let (result, _) = run(&mut act, &no_byzantine_cases());
    assert!(result.is_ok());
    assert_eq!(act.height(), 101);
}

#[test]
fn same_message_delivered_twice_changes_nothing() {
    let mut act = actuator(Fault::Honest);
    act.init();
    act.begin([1, 1, 1, 1, 1, 1], 1);
    act.offer_content(vec![5; 6]);
    let own = Vote {
        height: 1,
        round: 0,
        vote_type: VoteType::Prevote,
        proposal: vec![5; 6],
        voter: vec![ME],
    };
    assert!(!act.seen_before(&FrameRecv::Vote(own.clone())));
    assert_eq!(act.deliver(FrameRecv::Vote(own.clone())).unwrap(), Progress::Pending(0));
    assert_eq!(act.phase(), Phase::Precommit);
    assert!(act.seen_before(&FrameRecv::Vote(own.clone())));
    act.take_journal();
    assert_eq!(act.deliver(FrameRecv::Vote(own)).unwrap(), Progress::Pending(0));
    assert_eq!(act.phase(), Phase::Precommit);
    assert_eq!(act.take_journal(), vec![]);
    assert_eq!(act.voteset(1, 0, VoteType::Prevote).unwrap().count, 4);
    assert_eq!(act.voteset(1, 0, VoteType::Precommit).unwrap().count, 3);
}

#[test]
fn message_outside_a_round_is_ignored() {
    let mut act = actuator(Fault::Honest);
    let own = Vote {
        height: 0,
        round: 0,
        vote_type: VoteType::Prevote,
        proposal: vec![5; 6],
        voter: vec![ME],
    };
    assert_eq!(act.deliver(FrameRecv::Vote(own.clone())).unwrap(), Progress::Finished);
    assert!(!act.seen_before(&FrameRecv::Vote(own)));
    assert!(act.voteset(0, 0, VoteType::Prevote).is_none());
    assert_eq!(act.conclude(None).unwrap(), Progress::Finished);
    assert_eq!(act.resume().unwrap(), Progress::Finished);
}

#[test]
fn height_advance_resets_the_state() {
    let mut act = actuator(Fault::Honest);
    let cases = vec![[1, 1, 1, 1, 0, 2], SHOULD_NOT_COMMIT, [1, 1, 1, 1, 1, 1]];
    let (result, _) = run(&mut act, &cases);
    assert!(result.is_ok());
    assert_eq!(act.height(), 1);
    assert_eq!(act.round(), 1);
    assert!(act.lock_round().is_some());
    let locked = act.lock_proposal().unwrap();
    let own = FrameRecv::Vote(Vote {
        height: 1,
        round: 1,
        vote_type: VoteType::Prevote,
        proposal: locked.clone(),
        voter: vec![ME],
    });
    assert!(act.seen_before(&own));

    assert_eq!(act.start(SHOULD_COMMIT), Progress::Pending(150));
    act.take_journal();
    assert_eq!(act.resume().unwrap(), Progress::Finished);
    assert_eq!(act.height(), 2);
    assert_eq!(act.round(), 0);
    assert_eq!(act.lock_round(), None);
    assert_eq!(act.lock_proposal(), None);
    assert_eq!(act.proposal(), Vec::<u8>::new());
    assert_eq!(act.phase(), Phase::Idle);
    assert!(!act.seen_before(&own));
    assert!(act.voteset(1, 1, VoteType::Prevote).is_none());
    assert!(act.voteset(1, 1, VoteType::Precommit).is_none());
    let status = Status {
        height: 1,
        authority_list: authorities(),
    };
    assert_eq!(
        act.take_journal(),
        vec![
            Msg::Commit(Commit {
                node: 0,
                height: 1,
                result: locked,
            }),
            Msg::Status(status.clone()),
        ]
    );
    assert_eq!(act.function().sent().last(), Some(&FrameSend::Status(status)));
}

#[test]
fn missing_commit_fails() {
    let mut act = actuator(Fault::NeverCommit);
    let (result, _) = run(&mut act, &vec![[1; 6], SHOULD_COMMIT]);
    assert!(matches!(result, Err(BftError::NoCommit(1))));
    assert_eq!(act.phase(), Phase::Idle);
    assert_eq!(act.height(), 1);
}

#[test]
fn commit_without_quorum_fails() {
    let mut act = actuator(Fault::AlwaysCommit);
    let (result, _) = run(&mut act, &vec![[1, 1, 1, 1, 0, 2], SHOULD_NOT_COMMIT]);
    assert!(matches!(result, Err(BftError::CommitInvalid(1))));
    assert_eq!(act.round(), 0);
}

#[test]
fn commit_with_too_few_precommits_is_incorrect() {
    let mut act = actuator(Fault::AlwaysCommit);
    let (result, _) = run(&mut act, &vec![[1, 1, 1, 1, 0, 2], SHOULD_COMMIT]);
    assert!(matches!(result, Err(BftError::CommitIncorrect(1))));
    assert_eq!(act.height(), 1);
}

#[test]
fn commit_of_denylisted_value_is_incorrect() {
    let mut act = actuator(Fault::CommitDenylisted);
    let (result, journal) = run(&mut act, &vec![[1; 6], SHOULD_COMMIT]);
    assert!(matches!(result, Err(BftError::CommitIncorrect(1))));
    assert!(matches!(journal.last(), Some(Msg::Commit(_))));
}

#[test]
fn commit_of_other_value_is_incorrect() {
    let mut act = actuator(Fault::CommitOther);
    let (result, _) = run(&mut act, &vec![[1; 6], SHOULD_COMMIT]);
    assert!(matches!(result, Err(BftError::CommitIncorrect(1))));
}

#[test]
fn commit_without_lock_is_incorrect() {
    let mut act = actuator(Fault::Honest);
    act.init();
    act.start(SHOULD_COMMIT);
    let commit = Commit {
        node: 0,
        height: 1,
        result: vec![],
    };
    assert!(matches!(
        act.conclude(Some(commit)),
        Err(BftError::CommitIncorrect(1))
    ));
}

#[test]
fn commit_without_registered_proposal_is_incorrect() {
    let mut act = actuator(Fault::Honest);
    act.set_polc(vec![5; 6]);
    for voter in 1..4u8 {
        act.generate_precommit(vec![1, 0, 0]);
        assert!(voter > 0);
    }
    assert_eq!(act.voteset(0, 0, VoteType::Precommit).unwrap().count, 3);
    let commit = Commit {
        node: 0,
        height: 0,
        result: vec![5; 6],
    };
    assert!(matches!(
        act.check_commit(commit.clone()),
        Err(BftError::CommitIncorrect(0))
    ));
    act.begin([0; 6], 1);
    act.offer_content(vec![]);
    assert_eq!(act.registered(0, 0).unwrap().content, vec![5; 6]);
    assert!(act.check_commit(commit).is_ok());
}

#[test]
fn precommit_without_prevote_quorum_fails() {
    let mut act = actuator(Fault::Honest);
    let (result, _) = run(&mut act, &vec![[0, 0, 1, 1, 1, 1]]);
    assert!(matches!(result, Err(BftError::ShouldNotPrecommit(1, 0))));
}

#[test]
fn proposal_in_place_of_vote_is_abnormal() {
    let mut act = actuator(Fault::ProposalForPrevote);
    let (result, _) = run(&mut act, &vec![[1; 6]]);
    match result {
        Err(BftError::AbnormalProposal(proposal)) => assert_eq!(proposal.content, vec![42]),
        other => panic!("{:?}", other),
    }
}

#[test]
fn vote_of_wrong_step_is_illegal() {
    let mut act = actuator(Fault::PrecommitForPrevote);
    let (result, _) = run(&mut act, &vec![[1; 6]]);
    match result {
        Err(BftError::IllegalVote(vote)) => assert_eq!(vote.vote_type, VoteType::Precommit),
        other => panic!("{:?}", other),
    }
    assert_eq!(act.voteset(1, 0, VoteType::Prevote).unwrap().count, 3);
}

#[test]
fn vote_for_denylisted_content_is_illegal() {
    let mut act = actuator(Fault::DenylistedPrevote);
    let (result, _) = run(&mut act, &vec![[1; 6]]);
    match result {
        Err(BftError::IllegalVote(vote)) => assert_eq!(vote.proposal, vec![1; 6]),
        other => panic!("{:?}", other),
    }
}

#[test]
fn vote_without_a_voteset_is_illegal() {
    let mut act = actuator(Fault::Honest);
    act.init();
    act.begin([0, 0, 0, 0, 0, 0], 1);
    act.offer_content(vec![5; 6]);
    let stray = Vote {
        height: 9,
        round: 9,
        vote_type: VoteType::Prevote,
        proposal: vec![5; 6],
        voter: vec![ME],
    };
    match act.deliver(FrameRecv::Vote(stray.clone())) {
        Err(BftError::IllegalVote(vote)) => assert_eq!(vote, stray),
        other => panic!("{:?}", other),
    }
    assert_eq!(act.phase(), Phase::Idle);
    assert_eq!(act.voteset(9, 9, VoteType::Prevote).unwrap().count, 1);
}

#[test]
fn precommit_for_other_content_is_a_mismatch() {
    let mut act = actuator(Fault::PrecommitOther);
    let (result, _) = run(&mut act, &vec![[1; 6]]);
    assert!(matches!(result, Err(BftError::PrecommitErr(1, 0))));
}

#[test]
fn vote_in_place_of_proposal_is_abnormal() {
    let mut act = actuator(Fault::VoteForProposal);
    let cases = vec![NULL_ROUND, NULL_ROUND, NULL_ROUND, [1; 6]];
    let (result, _) = run(&mut act, &cases);
    match result {
        Err(BftError::AbnormalVote(vote)) => {
            assert_eq!(vote.height, 1);
            assert_eq!(vote.round, 3);
            assert_eq!(vote.vote_type, VoteType::Prevote);
        }
        other => panic!("{:?}", other),
    }
    assert_eq!(act.phase(), Phase::Idle);
    assert_eq!(act.proposal(), Vec::<u8>::new());
    assert_eq!(act.registered(1, 3), None);
    assert!(act.voteset(1, 3, VoteType::Prevote).is_none());
}

#[test]
fn start_asks_for_the_height_and_round_under_test() {
    // Height 1 after the start of a run; the rule of the node is (height + round) % 4.
    let mut act = actuator(Fault::Honest);
    act.init();
    act.start(NULL_ROUND);
    act.start(NULL_ROUND);
    assert_eq!(act.start([1; 6]), Progress::Pending(0));
    assert_eq!(act.phase(), Phase::Content);
    assert_eq!(act.function().state.borrow().height, 1);
    assert_eq!(act.function().state.borrow().round, 2);
    // Place 3 proposes: the proposal is made in the name of the fourth validator.
    act.offer_content(vec![5; 6]);
    assert_eq!(act.registered(1, 2).unwrap().proposer, vec![13]);
}

#[test]
fn commit_where_none_may_be_advances_nothing() {
    let mut act = Actuator::new(Node::new(Fault::Honest), 3, u64::MAX, authorities());
    assert_eq!(act.start(SHOULD_NOT_COMMIT), Progress::Pending(120));
    assert!(!act.can_resume());
    let commit = Commit {
        node: 0,
        height: 3,
        result: vec![],
    };
    assert!(matches!(
        act.conclude(Some(commit)),
        Err(BftError::CommitInvalid(3))
    ));
    assert_eq!(act.height(), 3);
    assert_eq!(act.round(), u64::MAX);
    assert_eq!(act.phase(), Phase::Idle);
}

#[test]
fn missing_commit_at_the_last_height_fails_without_advancing() {
    let mut act = Actuator::new(Node::new(Fault::Honest), u64::MAX, 0, authorities());
    assert_eq!(act.start(SHOULD_COMMIT), Progress::Pending(150));
    assert!(matches!(
        act.conclude(None),
        Err(BftError::NoCommit(u64::MAX))
    ));
    assert_eq!(act.height(), u64::MAX);
}

#[test]
fn proposal_that_claims_a_lock_is_illegal() {
    let mut act = actuator(Fault::LockWithoutLock);
    let cases = vec![NULL_ROUND, NULL_ROUND, NULL_ROUND, [1; 6]];
    let (result, _) = run(&mut act, &cases);
    assert!(matches!(result, Err(BftError::IllegalProposal(1, 3))));
}

#[test]
fn proposal_that_drops_the_lock_is_illegal() {
    let mut act = actuator(Fault::Honest);
    act.init();
    act.set_polc(vec![5; 6]);
    act.begin([1; 6], 0);
    act.offer_content(vec![8; 6]);
    assert_eq!(act.phase(), Phase::Proposal);
    let mut proposal = Proposal {
        height: 1,
        round: 0,
        content: vec![5; 6],
        proposer: vec![ME],
        lock_round: None,
        lock_votes: Vec::new(),
    };
    assert!(matches!(
        act.check_proposal(FrameRecv::Proposal(proposal.clone())),
        Err(BftError::IllegalProposal(1, 0))
    ));
    proposal.lock_round = Some(0);
    proposal.content = vec![6; 6];
    assert!(matches!(
        act.check_proposal(FrameRecv::Proposal(proposal.clone())),
        Err(BftError::IllegalProposal(1, 0))
    ));
    proposal.content = vec![5; 6];
    assert!(act.check_proposal(FrameRecv::Proposal(proposal.clone())).is_ok());
    assert_eq!(act.registered(1, 0), Some(proposal));
}

#[test]
fn is_above_threshold_of_four() {
    let act = actuator(Fault::Honest);
    assert!(act.is_above_threshold(3).is_ok());
    assert!(act.is_above_threshold(4).is_ok());
    assert!(matches!(
        act.is_above_threshold(2),
        Err(BftError::ShouldNotPrecommit(0, 0))
    ));
}

#[test]
fn polc_steps() {
    let mut act = actuator(Fault::Honest);
    act.set_polc(vec![4; 6]);
    assert_eq!(act.lock_round(), Some(0));
    assert_eq!(act.lock_proposal(), Some(vec![4; 6]));
    assert_eq!(act.proposal(), vec![4; 6]);
    act.goto_next_round();
    assert_eq!(act.round(), 1);
    assert_eq!(act.proposal(), vec![4; 6]);
    assert_eq!(act.lock_round(), Some(0));
    act.clean_polc();
    assert_eq!(act.lock_round(), None);
    assert_eq!(act.lock_proposal(), None);
    assert_eq!(act.proposal(), Vec::<u8>::new());
    act.goto_next_round();
    assert_eq!(act.round(), 2);
    assert_eq!(act.proposal(), Vec::<u8>::new());
    act.goto_next_height();
    assert_eq!(act.height(), 1);
    assert_eq!(act.round(), 0);
}

#[test]
fn feed_under_a_lock_is_the_locked_content() {
    let mut act = actuator(Fault::Honest);
    act.set_polc(vec![4; 6]);
    let feed = act.generate_feed(vec![9; 6]);
    assert_eq!(feed.proposal, vec![4; 6]);
    let feed = act.generate_status();
    assert_eq!(feed.height, 0);
    act.clean_polc();
    let feed = act.generate_feed(vec![9; 6]);
    assert_eq!(feed.proposal, vec![9; 6]);
}

#[test]
fn receive_vote_counts_and_records() {
    let mut act = actuator(Fault::Honest);
    let own = Vote {
        height: 0,
        round: 0,
        vote_type: VoteType::Precommit,
        proposal: vec![],
        voter: vec![ME],
    };
    let taken = act
        .receive_vote(FrameRecv::Vote(own.clone()), VoteType::Precommit)
        .unwrap();
    assert_eq!(taken, own);
    assert_eq!(act.take_journal(), vec![Msg::Vote(own.clone())]);
    assert_eq!(act.voteset(0, 0, VoteType::Precommit).unwrap().votes, vec![own]);
    act.storage_msg(Msg::Feed(Feed {
        height: 0,
        proposal: vec![1],
    }));
    assert_eq!(act.take_journal().len(), 1);
}
