//! The actuator: the state of one test run, the messages that the framework
//! makes in the name of the other validators, and the checks on what the node
//! under test answers.
//!
//! The state is modelled by [`ActuatorView`]. Every step of the run is a
//! function on that model; the executable functions are proved to take the
//! same steps. What holds of the steps is proved in [`laws`], and what a run
//! without a fault comes to in [`clean`].

pub mod clean;
pub mod laws;
pub mod model;

pub use crate::whitebox::actuator::model::{
    ActuatorView, Phase, Progress, CONTENT_LENGTH, DEFAULT_COMMIT_WAIT, NO_COMMIT_WAIT, POLC_FLOOR,
};

use crate::error::{outcome, BftError, BftErrorView};
use crate::whitebox::actuator::laws::lemma_checked_frame;
use crate::whitebox::actuator::model::{
    commit_view, denylist, recv_views, vote_frames, vote_records, voters,
};
use crate::whitebox::collection::proposal_cache::{
    lemma_add_then_get, lemma_touch_keeps_all, registry_get, registry_touched, ProposalCache,
};
use crate::whitebox::collection::util::{msg_views, Msg, MsgView};
use crate::whitebox::collection::vote_cache::{
    lemma_step_votes_idempotent, polc, step_votes, tally, tally_views, VoteCache, VoteSet,
};
use crate::whitebox::correctness::test_case::{
    byzantine_proposal, uniform, unit_eq, BftTestUnit, BYZANTINE, NIL, NORMAL, NULL_ROUND,
    SHOULD_COMMIT, SHOULD_NOT_COMMIT,
};
use crate::whitebox::correctness::util::random_byte;
use crate::whitebox::quorum::{is_supermajority, supermajority};
use crate::whitebox::types::{
    byte_lists_clone, byte_views, bytes_clone, bytes_eq, vote_views, votes_clone, Address,
    BftResult, Commit, CommitView, Feed, FrameRecv, FrameRecvView, FrameSend, FrameSendView,
    Proposal, Status, Support, Vote, VoteType, VoteView,
};
use vstd::prelude::*;

verus! {

/// The test actuator: it plays the other validators towards the node under
/// test and checks what the node answers.
pub struct Actuator<T> {
    function: T,
    height: u64,
    round: u64,
    lock_round: Option<u64>,
    lock_votes: Vec<Vote>,
    lock_proposal: Option<Vec<u8>>,
    authority_list: Vec<Address>,
    proposal: Vec<u8>,
    byzantine: Vec<Vec<u8>>,
    sleep_ms: u64,
    vote_cache: VoteCache,
    proposal_cache: ProposalCache,
    msg_cache: Vec<FrameRecv>,
    journal: Vec<Msg>,
    sent: Ghost<Seq<FrameSendView>>,
    heard: Ghost<Seq<FrameRecvView>>,
    phase: Phase,
    unit: BftTestUnit,
    proposer: usize,
}

/// Whether the list holds the content.
pub fn contains_bytes(list: &Vec<Vec<u8>>, content: &Vec<u8>) -> (found: bool)
    ensures
        found == byte_views(list@).contains(content@),
{
    let mut i: usize = 0;
    while i < list.len()
        invariant
            i <= list@.len(),
            forall|j: int| 0 <= j < i ==> byte_views(list@)[j] != content@,
        decreases list@.len() - i,
    {
        if bytes_eq(&list[i], content) {
            assert(byte_views(list@)[i as int] == content@);
            return true;
        }
        i += 1;
    }
    false
}

/// A content of [`CONTENT_LENGTH`] bytes drawn at random. It may be on the denylist.
pub fn random_content() -> (content: Vec<u8>)
    ensures
        content@.len() == CONTENT_LENGTH,
{
    let mut content: Vec<u8> = Vec::new();
    while content.len() < CONTENT_LENGTH
        invariant
            content@.len() <= CONTENT_LENGTH,
        decreases CONTENT_LENGTH - content@.len(),
    {
        content.push(random_byte());
    }
    content
}

impl<T: Support> Actuator<T> {
    /// The state, as mathematical values.
    pub closed spec fn view(&self) -> ActuatorView {
        ActuatorView {
            height: self.height,
            round: self.round,
            lock_round: self.lock_round,
            lock_votes: vote_views(self.lock_votes@),
            lock_proposal: match self.lock_proposal {
                Some(content) => Some(content@),
                None => None,
            },
            authority_list: byte_views(self.authority_list@),
            proposal: self.proposal@,
            byzantine: byte_views(self.byzantine@),
            sleep_ms: self.sleep_ms,
            votes: self.vote_cache@,
            proposals: self.proposal_cache@,
            seen: recv_views(self.msg_cache@),
            journal: msg_views(self.journal@),
            sent: self.sent@,
            heard: self.heard@,
            phase: self.phase,
            unit: self.unit@,
            proposer: self.proposer,
        }
    }

    /// The node under test.
    pub closed spec fn node(&self) -> T {
        self.function
    }

    /// The parts of the state fit together.
    pub closed spec fn wf(&self) -> bool {
        &&& self@.valid()
        &&& self.proposal_cache.wf()
    }

    /// What holds of the state of a well-formed actuator.
    pub proof fn lemma_wf(&self)
        requires
            self.wf(),
        ensures
            self@.valid(),
    {
    }

    /// An actuator for the node behind `function`, at the given height and
    /// round, among the validators of `authority_list`, of which the first
    /// is the node under test. It holds no lock, no vote and no proposal.
    pub fn new(function: T, height: u64, round: u64, authority_list: Vec<Address>) -> (actuator:
        Self)
        requires
            authority_list@.len() >= 4,
        ensures
            actuator.wf(),
            actuator@ == (ActuatorView {
                height,
                round,
                lock_round: None,
                lock_votes: Seq::empty(),
                lock_proposal: None,
                authority_list: byte_views(authority_list@),
                proposal: Seq::empty(),
                byzantine: denylist(),
                sleep_ms: DEFAULT_COMMIT_WAIT,
                votes: Seq::empty(),
                proposals: Seq::empty(),
                seen: Seq::empty(),
                journal: Seq::empty(),
                sent: Seq::empty(),
                heard: Seq::empty(),
                phase: Phase::Idle,
                unit: uniform(7),
                proposer: 0,
            }),
    {
        let actuator = Actuator {
            function,
            height,
            round,
            lock_round: None,
            lock_votes: Vec::new(),
            lock_proposal: None,
            authority_list,
            proposal: Vec::new(),
            byzantine: byzantine_proposal(),
            sleep_ms: DEFAULT_COMMIT_WAIT,
            vote_cache: VoteCache::new(),
            proposal_cache: ProposalCache::new(),
            msg_cache: Vec::new(),
            journal: Vec::new(),
            sent: Ghost(Seq::empty()),
            heard: Ghost(Seq::empty()),
            phase: Phase::Idle,
            unit: NULL_ROUND,
            proposer: 0,
        };
        proof {
            assert(actuator@.lock_votes =~= Seq::empty());
            assert(actuator@.byzantine =~= denylist());
            assert(actuator@.seen =~= Seq::empty());
            assert(actuator@.journal =~= Seq::empty());
            assert(actuator@.unit =~= uniform(7));
        }
        actuator
    }

    /// Replaces the authority list. The first validator is the node under test.
    pub fn set_authority_list(&mut self, authority_list: Vec<Address>)
        requires
            old(self).wf(),
            authority_list@.len() >= 4,
            old(self)@.phase == Phase::Content ==> old(self)@.proposer < authority_list@.len(),
        ensures
            final(self).wf(),
            final(self).node() == old(self).node(),
            final(self)@ == (ActuatorView {
                authority_list: byte_views(authority_list@),
                ..old(self)@
            }),
    {
        self.authority_list = authority_list;
    }

    /// Sets the wait before a check that the node committed, in milliseconds.
    pub fn set_sleep_time(&mut self, ms: u64)
        requires
            old(self).wf(),
        ensures
            final(self).wf(),
            final(self).node() == old(self).node(),
            final(self)@ == (ActuatorView { sleep_ms: ms, ..old(self)@ }),
    {
        self.sleep_ms = ms;
    }

    /// Hands out the records made for the audit trail since they were last
    /// taken, in the order in which they were made.
    pub fn take_journal(&mut self) -> (records: Vec<Msg>)
        requires
            old(self).wf(),
        ensures
            final(self).wf(),
            final(self).node() == old(self).node(),
            msg_views(records@) == old(self)@.journal,
            final(self)@ == (ActuatorView { journal: Seq::empty(), ..old(self)@ }),
    {
        let mut records: Vec<Msg> = Vec::new();
        std::mem::swap(&mut records, &mut self.journal);
        assert(self@.journal =~= Seq::empty());
        records
    }

    /// Hands a message to the node.
    fn send(&mut self, msg: FrameSend)
        requires
            old(self).wf(),
        ensures
            final(self).wf(),
            final(self).node() == old(self).node(),
            final(self)@ == old(self)@.handed(msg@),
    {
        let ghost handed = msg@;
        self.function.send(msg);
        self.sent = Ghost(self.sent@.push(handed));
    }

    /// Asks the node once for its next message.
    fn recv(&mut self) -> (msg: FrameRecv)
        requires
            old(self).wf(),
        ensures
            final(self).wf(),
            final(self).node() == old(self).node(),
            final(self)@ == old(self)@.having_heard(msg@),
    {
        let msg = self.function.recv();
        self.heard = Ghost(self.heard@.push(msg@));
        msg
    }

    /// Keeps a record for the audit trail.
    pub fn storage_msg(&mut self, msg: Msg)
        requires
            old(self).wf(),
        ensures
            final(self).wf(),
            final(self).node() == old(self).node(),
            final(self)@ == old(self)@.recorded(msg@),
    {
        let ghost record = msg@;
        self.journal.push(msg);
        assert(self@.journal =~= old(self)@.journal.push(record));
    }

    /// Whether `num` votes are a supermajority of the authority list; the
    /// error says that a precommit stands on too few prevotes.
    pub fn is_above_threshold(&self, num: usize) -> (result: BftResult<()>)
        ensures
            outcome(result) == if supermajority(num as int, self@.authority_list.len() as int) {
                Ok::<(), BftErrorView>(())
            } else {
                Err(BftErrorView::ShouldNotPrecommit(self@.height, self@.round))
            },
    {
        if is_supermajority(num, self.authority_list.len()) {
            Ok(())
        } else {
            Err(BftError::ShouldNotPrecommit(self.height, self.round))
        }
    }

    /// Locks on a content in the round under way.
    pub fn set_polc(&mut self, proposal: Vec<u8>)
        requires
            old(self).wf(),
        ensures
            final(self).wf(),
            final(self).node() == old(self).node(),
            final(self)@ == old(self)@.with_polc(proposal@),
    {
        self.proposal = bytes_clone(&proposal);
        self.lock_round = Some(self.round);
        self.lock_proposal = Some(proposal);
    }

    /// Gives up the lock and the content worked on.
    pub fn clean_polc(&mut self)
        requires
            old(self).wf(),
        ensures
            final(self).wf(),
            final(self).node() == old(self).node(),
            final(self)@ == old(self)@.without_polc(),
    {
        self.proposal = Vec::new();
        self.lock_round = None;
        self.lock_votes.clear();
        self.lock_proposal = None;
        assert(self@.lock_votes =~= Seq::empty());
    }

    /// Goes on to the next round; a lock is carried over.
    pub fn goto_next_round(&mut self)
        requires
            old(self).wf(),
            old(self)@.round < u64::MAX,
        ensures
            final(self).wf(),
            final(self).node() == old(self).node(),
            final(self)@ == old(self)@.next_round(),
    {
        self.proposal = match &self.lock_proposal {
            Some(content) => bytes_clone(content),
            None => Vec::new(),
        };
        self.round += 1;
    }

    /// Goes on to the next height: votes, messages seen and lock are dropped.
    pub fn goto_next_height(&mut self)
        requires
            old(self).wf(),
            old(self)@.height < u64::MAX,
        ensures
            final(self).wf(),
            final(self).node() == old(self).node(),
            final(self)@ == old(self)@.next_height(),
    {
        self.vote_cache.clear_prevote_count();
        self.msg_cache.clear();
        self.clean_polc();
        self.round = 0;
        self.height += 1;
        assert(self@.seen =~= Seq::empty());
    }

    /// Makes and records the status of the height under test.
    pub fn generate_status(&mut self) -> (status: Status)
        requires
            old(self).wf(),
        ensures
            final(self).wf(),
            final(self).node() == old(self).node(),
            status@ == old(self)@.status(),
            final(self)@ == old(self)@.recorded(MsgView::Status(old(self)@.status())),
    {
        let status = Status {
            height: self.height,
            authority_list: byte_lists_clone(&self.authority_list),
        };
        self.storage_msg(Msg::Status(status.clone()));
        status
    }

    /// Makes and records the feed that hands the node a content to propose:
    /// the content locked on if a lock is held, `candidate` otherwise. The
    /// candidate has to be one that can be proposed: without a lock it is
    /// neither denylisted nor empty.
    pub fn generate_feed(&mut self, candidate: Vec<u8>) -> (feed: Feed)
        requires
            old(self).wf(),
            old(self)@.proposable(candidate@),
        ensures
            final(self).wf(),
            final(self).node() == old(self).node(),
            feed@ == old(self)@.feed(candidate@),
            final(self)@ == old(self)@.recorded(MsgView::Feed(old(self)@.feed(candidate@))),
    {
        let proposal = match &self.lock_proposal {
            Some(content) => bytes_clone(content),
            None => candidate,
        };
        let feed = Feed { height: self.height, proposal };
        self.storage_msg(Msg::Feed(feed.clone()));
        feed
    }

    /// Makes a proposal in the name of the validator at `auth_index`, of the
    /// content locked on if a lock is held and of `candidate` otherwise;
    /// registers it, records it and sends it to the node. The candidate has
    /// to be one that can be proposed: without a lock it is neither
    /// denylisted nor empty.
    pub fn generate_proposal(&mut self, auth_index: usize, candidate: Vec<u8>)
        requires
            old(self).wf(),
            old(self)@.proposable(candidate@),
            auth_index < old(self)@.authority_list.len(),
        ensures
            final(self).wf(),
            final(self).node() == old(self).node(),
            final(self)@ == old(self)@.proposed(auth_index as int, candidate@),
    {
        let content = match &self.lock_proposal {
            Some(locked) => bytes_clone(locked),
            None => candidate,
        };
        self.proposal = bytes_clone(&content);
        let proposal = Proposal {
            height: self.height,
            round: self.round,
            content,
            proposer: bytes_clone(&self.authority_list[auth_index]),
            lock_round: self.lock_round,
            lock_votes: votes_clone(&self.lock_votes),
        };
        proof {
            lemma_add_then_get(self.proposal_cache@, proposal@);
        }
        self.proposal_cache.add(proposal.clone());
        self.storage_msg(Msg::Proposal(proposal.clone()));
        self.send(FrameSend::Proposal(proposal));
    }

    /// Casts, in the name of the other validators, the votes of one step
    /// under their codes; counts, records and sends each.
    pub fn generate_votes(&mut self, codes: &Vec<u8>, vote_type: VoteType)
        requires
            old(self).wf(),
        ensures
            final(self).wf(),
            final(self).node() == old(self).node(),
            final(self)@ == old(self)@.voted(codes@, vote_type),
    {
        let content = match &self.lock_proposal {
            Some(locked) => bytes_clone(locked),
            None => bytes_clone(&self.proposal),
        };
        let number: usize = if codes.len() < 3 {
            codes.len()
        } else {
            3
        };
        let ghost start = self@;
        assert(self@.votes =~= start.votes + start.casts(codes@, vote_type, 0));
        assert(self@.journal =~= start.journal + vote_records(start.casts(codes@, vote_type, 0)));
        assert(self@.sent =~= start.sent + vote_frames(start.casts(codes@, vote_type, 0)));
        for i in 0..number
            invariant
                number == voters(codes@),
                start.valid(),
                content@ == start.stance(),
                self.wf(),
                self.node() == old(self).node(),
                self@ == (ActuatorView {
                    votes: start.votes + start.casts(codes@, vote_type, i as int),
                    journal: start.journal + vote_records(start.casts(codes@, vote_type, i as int)),
                    sent: start.sent + vote_frames(start.casts(codes@, vote_type, i as int)),
                    ..start
                }),
        {
            let code = codes[i];
            proof {
                assert(denylist().len() == 3);
                assert(byte_views(self.byzantine@).len() == self.byzantine@.len());
                assert(byte_views(self.byzantine@)[i as int] == self.byzantine@[i as int]@);
                assert(byte_views(self.authority_list@)[i + 1] == self.authority_list@[i + 1]@);
            }
            let proposal = if code == NORMAL {
                Some(bytes_clone(&content))
            } else if code == BYZANTINE {
                Some(bytes_clone(&self.byzantine[i]))
            } else if code == NIL {
                Some(Vec::new())
            } else {
                None
            };
            if let Some(proposal) = proposal {
                let vote = Vote {
                    height: self.height,
                    round: self.round,
                    vote_type,
                    proposal,
                    voter: bytes_clone(&self.authority_list[i + 1]),
                };
                let ghost earlier = start.casts(codes@, vote_type, i as int);
                assert(start.cast(i as int, code, vote_type) == Some(vote@));
                self.storage_msg(Msg::Vote(vote.clone()));
                self.send(FrameSend::Vote(vote.clone()));
                self.vote_cache.add(vote);
                assert(self@.votes =~= start.votes + earlier.push(vote@));
                assert(self@.journal =~= start.journal + vote_records(earlier.push(vote@)));
                assert(self@.sent =~= start.sent + vote_frames(earlier.push(vote@)));
            }
        }
    }

    /// Casts the prevotes of the other validators under their codes.
    pub fn generate_prevote(&mut self, prevote: Vec<u8>)
        requires
            old(self).wf(),
        ensures
            final(self).wf(),
            final(self).node() == old(self).node(),
            final(self)@ == old(self)@.voted(prevote@, VoteType::Prevote),
    {
        self.generate_votes(&prevote, VoteType::Prevote);
    }

    /// Casts the precommits of the other validators under their codes.
    pub fn generate_precommit(&mut self, precommit: Vec<u8>)
        requires
            old(self).wf(),
        ensures
            final(self).wf(),
            final(self).node() == old(self).node(),
            final(self)@ == old(self)@.voted(precommit@, VoteType::Precommit),
    {
        self.generate_votes(&precommit, VoteType::Precommit);
    }

    /// Takes a message of the node as its vote of a step: a proposal is out
    /// of place, a vote of another step or for a denylisted content is
    /// illegal, and any other vote is counted, recorded and handed back.
    pub fn receive_vote(&mut self, msg: FrameRecv, vote_type: VoteType) -> (result: BftResult<Vote>)
        requires
            old(self).wf(),
        ensures
            final(self).wf(),
            final(self).node() == old(self).node(),
            final(self)@ == old(self)@.vote_taken(msg@, vote_type).0,
            match result {
                Ok(vote) => old(self)@.vote_taken(msg@, vote_type).1 == Ok::<
                    VoteView,
                    BftErrorView,
                >(vote@),
                Err(error) => old(self)@.vote_taken(msg@, vote_type).1 == Err::<
                    VoteView,
                    BftErrorView,
                >(error@),
            },
    {
        let vote = match msg {
            FrameRecv::Proposal(proposal) => {
                return Err(BftError::AbnormalProposal(proposal));
            },
            FrameRecv::Vote(vote) => vote,
        };
        if vote.vote_type != vote_type || contains_bytes(&self.byzantine, &vote.proposal) {
            return Err(BftError::IllegalVote(vote));
        }
        self.vote_cache.add(vote.clone());
        self.storage_msg(Msg::Vote(vote.clone()));
        Ok(vote)
    }

    /// Checks the proposal that the node makes of the content fed to it: a
    /// vote is out of place, and a proposal has to carry the lock if one is
    /// held and none otherwise. It is then registered, and its content is
    /// worked on.
    pub fn check_proposal(&mut self, msg: FrameRecv) -> (result: BftResult<()>)
        requires
            old(self).wf(),
        ensures
            final(self).wf(),
            final(self).node() == old(self).node(),
            final(self)@ == old(self)@.proposal_checked(msg@).0,
            outcome(result) == old(self)@.proposal_checked(msg@).1,
    {
        match msg {
            FrameRecv::Proposal(proposal) => {
                let carried = if self.lock_round.is_some() {
                    proposal.lock_round.is_some() && match &self.lock_proposal {
                        Some(locked) => bytes_eq(&proposal.content, locked),
                        None => false,
                    }
                } else {
                    proposal.lock_round.is_none()
                };
                if !carried {
                    return Err(BftError::IllegalProposal(self.height, self.round));
                }
                proof {
                    lemma_add_then_get(self.proposal_cache@, proposal@);
                }
                self.proposal_cache.add(proposal.clone());
                self.proposal = proposal.content;
                Ok(())
            },
            FrameRecv::Vote(vote) => Err(BftError::AbnormalVote(vote)),
        }
    }

    /// Checks the prevote of the node and lets the prevotes of the round
    /// decide on the lock: a content with a supermajority is locked on, the
    /// empty content with one ends the lock, and where no content has one
    /// the round works on no content.
    pub fn check_prevote(&mut self, msg: FrameRecv) -> (result: BftResult<()>)
        requires
            old(self).wf(),
        ensures
            final(self).wf(),
            final(self).node() == old(self).node(),
            final(self)@ == old(self)@.prevote_checked(msg@).0,
            outcome(result) == old(self)@.prevote_checked(msg@).1,
    {
        let vote = match self.receive_vote(msg, VoteType::Prevote) {
            Ok(vote) => vote,
            Err(error) => {
                return Err(error);
            },
        };
        let set = match self.vote_cache.get_voteset(self.height, self.round, VoteType::Prevote) {
            Some(set) => set,
            None => {
                return Err(BftError::IllegalVote(vote));
            },
        };
        let ghost taken = self@;
        let ghost counts = tally(set@);
        let mut clean_flag = true;
        let authorities = self.authority_list.len();
        for i in 0..set.votes_by_proposal.len()
            invariant
                self.wf(),
                self.node() == old(self).node(),
                counts == tally_views(set.votes_by_proposal@),
                authorities == self@.authority_list.len(),
                taken.prevotes_scanned(counts, 0, true) == self@.prevotes_scanned(
                    counts,
                    i as int,
                    clean_flag,
                ),
        {
            assert(counts[i as int] == (
                set.votes_by_proposal@[i as int].0@,
                set.votes_by_proposal@[i as int].1 as nat,
            ));
            if is_supermajority(set.votes_by_proposal[i].1, authorities) {
                clean_flag = false;
                if set.votes_by_proposal[i].0.len() > 0 {
                    self.set_polc(bytes_clone(&set.votes_by_proposal[i].0));
                } else {
                    self.clean_polc();
                }
            }
        }
        if clean_flag {
            self.proposal = Vec::new();
        }
        Ok(())
    }

    /// Checks the precommit of the node: it has to stand on a supermajority
    /// of prevotes of the round, to be for the content that they agree on,
    /// and the prevotes for that content have to be [`POLC_FLOOR`] at least.
    /// They become the proof of the lock.
    pub fn check_precommit(&mut self, msg: FrameRecv) -> (result: BftResult<()>)
        requires
            old(self).wf(),
        ensures
            final(self).wf(),
            final(self).node() == old(self).node(),
            final(self)@ == old(self)@.precommit_checked(msg@).0,
            outcome(result) == old(self)@.precommit_checked(msg@).1,
    {
        let ghost goal = self@.precommit_checked(msg@);
        let vote = match self.receive_vote(msg, VoteType::Precommit) {
            Ok(vote) => vote,
            Err(error) => {
                return Err(error);
            },
        };
        let set = match self.vote_cache.get_voteset(self.height, self.round, VoteType::Prevote) {
            Some(set) => set,
            None => {
                return Err(BftError::IllegalVote(vote));
            },
        };
        match self.is_above_threshold(set.count) {
            Ok(_) => {},
            Err(error) => {
                return Err(error);
            },
        }
        let ghost taken = self@;
        let ghost counts = tally(set@);
        let ghost evidence = polc(
            taken.votes,
            taken.height,
            taken.round,
            VoteType::Prevote,
            vote@.proposal,
        );
        proof {
            lemma_step_votes_idempotent(
                taken.votes,
                taken.height,
                taken.round,
                VoteType::Prevote,
            );
        }
        let authorities = self.authority_list.len();
        for i in 0..set.votes_by_proposal.len()
            invariant
                self.wf(),
                self.node() == old(self).node(),
                set@ == step_votes(taken.votes, taken.height, taken.round, VoteType::Prevote),
                evidence == polc(
                    set@,
                    taken.height,
                    taken.round,
                    VoteType::Prevote,
                    vote@.proposal,
                ),
                self@.height == taken.height,
                self@.round == taken.round,
                counts == tally_views(set.votes_by_proposal@),
                authorities == self@.authority_list.len(),
                goal == old(self)@.precommit_checked(msg@),
                goal == self@.precommits_scanned(counts, i as int, vote@.proposal, evidence),
        {
            assert(counts[i as int] == (
                set.votes_by_proposal@[i as int].0@,
                set.votes_by_proposal@[i as int].1 as nat,
            ));
            if is_supermajority(set.votes_by_proposal[i].1, authorities) {
                if !bytes_eq(&set.votes_by_proposal[i].0, &vote.proposal) {
                    return Err(BftError::PrecommitErr(self.height, self.round));
                }
                let polc = set.extract_polc(
                    self.height,
                    self.round,
                    VoteType::Prevote,
                    &vote.proposal,
                );
                if polc.len() < POLC_FLOOR {
                    return Err(BftError::PrecommitDiffPoLC(self.height, self.round));
                }
                self.lock_votes = polc;
            }
        }
        Ok(())
    }

    /// Checks a commit of the node: its content must not be denylisted, a
    /// lock has to be held, the content has to be the one worked on and the
    /// one of the proposal registered for the height and round, and
    /// [`POLC_FLOOR`] precommits of the round at least have to be for it.
    pub fn check_commit(&mut self, commit: Commit) -> (result: BftResult<()>)
        requires
            old(self).wf(),
        ensures
            final(self).wf(),
            final(self).node() == old(self).node(),
            final(self)@ == old(self)@.commit_checked(commit@.result).0,
            outcome(result) == old(self)@.commit_checked(commit@.result).1,
    {
        if contains_bytes(&self.byzantine, &commit.result) || self.lock_round.is_none()
            || !bytes_eq(&self.proposal, &commit.result) {
            return Err(BftError::CommitIncorrect(self.height));
        }
        proof {
            lemma_touch_keeps_all(self.proposal_cache@, self.height, self.round, 0, 0);
        }
        let registered = match self.proposal_cache.get_proposal(self.height, self.round) {
            Some(proposal) => bytes_eq(&proposal.content, &commit.result),
            None => false,
        };
        if !registered {
            return Err(BftError::CommitIncorrect(self.height));
        }
        let enough = match self.vote_cache.get_voteset(
            self.height,
            self.round,
            VoteType::Precommit,
        ) {
            Some(set) => {
                proof {
                    lemma_step_votes_idempotent(
                        self@.votes,
                        self@.height,
                        self@.round,
                        VoteType::Precommit,
                    );
                }
                set.extract_polc(self.height, self.round, VoteType::Precommit, &commit.result).len()
                    >= POLC_FLOOR
            },
            None => false,
        };
        if !enough {
            return Err(BftError::CommitIncorrect(self.height));
        }
        Ok(())
    }

    /// Whether the message was seen before at this height.
    pub fn seen_before(&self, msg: &FrameRecv) -> (seen: bool)
        ensures
            seen == self@.seen.contains(msg@),
    {
        let mut i: usize = 0;
        while i < self.msg_cache.len()
            invariant
                i <= self.msg_cache@.len(),
                forall|j: int| 0 <= j < i ==> recv_views(self.msg_cache@)[j] != msg@,
            decreases self.msg_cache@.len() - i,
        {
            if self.msg_cache[i] == *msg {
                assert(recv_views(self.msg_cache@)[i as int] == msg@);
                return true;
            }
            i += 1;
        }
        false
    }

    /// The codes of the unit under way for the prevotes.
    fn prevote_codes(&self) -> (codes: Vec<u8>)
        ensures
            codes@ == self@.prevote_codes(),
    {
        let codes = vec![self.unit[0], self.unit[1], self.unit[2]];
        assert(codes@ =~= self@.prevote_codes());
        codes
    }

    /// The codes of the unit under way for the precommits.
    fn precommit_codes(&self) -> (codes: Vec<u8>)
        ensures
            codes@ == self@.precommit_codes(),
    {
        let codes = vec![self.unit[3], self.unit[4], self.unit[5]];
        assert(codes@ =~= self@.precommit_codes());
        codes
    }

    /// Begins a unit, given the place that the node names for the proposer
    /// of the round. For a sentinel the place does not matter. A unit that
    /// was under way is given up.
    pub fn begin(&mut self, unit: BftTestUnit, proposer: usize) -> (progress: Progress)
        requires
            old(self).wf(),
            unit@ == uniform(7) ==> old(self)@.round < u64::MAX,
        ensures
            final(self).wf(),
            final(self).node() == old(self).node(),
            final(self)@ == old(self)@.started(unit@, proposer).0,
            progress == old(self)@.started(unit@, proposer).1,
    {
        proof {
            assert(SHOULD_COMMIT@ =~= uniform(8));
            assert(NULL_ROUND@ =~= uniform(7));
            assert(SHOULD_NOT_COMMIT@ =~= uniform(9));
        }
        if unit_eq(&unit, &SHOULD_COMMIT) {
            self.unit = unit;
            self.phase = Phase::Commit;
            Progress::Pending(self.sleep_ms)
        } else if unit_eq(&unit, &NULL_ROUND) {
            self.goto_next_round();
            self.unit = unit;
            self.phase = Phase::Idle;
            Progress::Finished
        } else if unit_eq(&unit, &SHOULD_NOT_COMMIT) {
            self.unit = unit;
            self.phase = Phase::NoCommit;
            Progress::Pending(NO_COMMIT_WAIT)
        } else if proposer >= self.authority_list.len() {
            Progress::BadProposer(proposer)
        } else {
            self.unit = unit;
            self.proposer = proposer;
            self.phase = Phase::Content;
            Progress::Pending(0)
        }
    }

    /// Begins a unit. For a round of votes the node is asked who proposes at
    /// the height and round under test, and the unit begins as
    /// [`Actuator::begin`] says for the place that its rule gives.
    pub fn start(&mut self, unit: BftTestUnit) -> (progress: Progress)
        requires
            old(self).wf(),
            unit@ == uniform(7) ==> old(self)@.round < u64::MAX,
        ensures
            final(self).wf(),
            final(self).node() == old(self).node(),
            final(self)@ == old(self)@.started(
                unit@,
                old(self).node().proposer(old(self)@.height, old(self)@.round),
            ).0,
            progress == old(self)@.started(
                unit@,
                old(self).node().proposer(old(self)@.height, old(self)@.round),
            ).1,
    {
        proof {
            assert(SHOULD_COMMIT@ =~= uniform(8));
            assert(NULL_ROUND@ =~= uniform(7));
            assert(SHOULD_NOT_COMMIT@ =~= uniform(9));
        }
        let proposer = if unit_eq(&unit, &SHOULD_COMMIT) || unit_eq(&unit, &NULL_ROUND) || unit_eq(
            &unit,
            &SHOULD_NOT_COMMIT,
        ) {
            0
        } else {
            self.function.cal_proposer(self.height, self.round)
        };
        self.begin(unit, proposer)
    }

    /// Offers a candidate for the content to propose. It is taken unless no
    /// content is waited for, or no lock is held and it is denylisted or empty.
    pub fn offer_content(&mut self, candidate: Vec<u8>)
        requires
            old(self).wf(),
        ensures
            final(self).wf(),
            final(self).node() == old(self).node(),
            final(self)@ == old(self)@.content_offered(candidate@),
    {
        if self.phase != Phase::Content {
            return ;
        }
        if self.lock_proposal.is_none() && (candidate.len() == 0 || contains_bytes(
            &self.byzantine,
            &candidate,
        )) {
            return ;
        }
        if self.proposer == 0 {
            let feed = self.generate_feed(candidate);
            self.send(FrameSend::Feed(feed));
            self.phase = Phase::Proposal;
        } else {
            let codes = self.prevote_codes();
            self.generate_proposal(self.proposer, candidate);
            self.generate_prevote(codes);
            self.phase = Phase::Prevote;
        }
    }

    /// Takes a message of the node. One that was seen before at this height
    /// changes nothing; any other is checked as the phase asks, and the
    /// votes of the other validators for the next step follow.
    pub fn deliver(&mut self, msg: FrameRecv) -> (result: BftResult<Progress>)
        requires
            old(self).wf(),
        ensures
            final(self).wf(),
            final(self).node() == old(self).node(),
            final(self)@ == old(self)@.delivered(msg@).0,
            outcome(result) == old(self)@.delivered(msg@).1,
    {
        let phase = self.phase;
        if phase != Phase::Proposal && phase != Phase::Prevote && phase != Phase::Precommit {
            return Ok(self.progress());
        }
        if self.seen_before(&msg) {
            return Ok(Progress::Pending(0));
        }
        let ghost noted = self@.seen.push(msg@);
        self.msg_cache.push(msg.clone());
        assert(self@.seen =~= noted);
        proof {
            lemma_checked_frame(self@, msg@);
        }
        let verdict = if phase == Phase::Proposal {
            self.check_proposal(msg)
        } else if phase == Phase::Prevote {
            self.check_prevote(msg)
        } else {
            self.check_precommit(msg)
        };
        match verdict {
            Err(error) => {
                self.phase = Phase::Idle;
                Err(error)
            },
            Ok(_) => {
                if phase == Phase::Proposal {
                    let codes = self.prevote_codes();
                    self.generate_prevote(codes);
                    self.phase = Phase::Prevote;
                    Ok(Progress::Pending(0))
                } else if phase == Phase::Prevote {
                    let codes = self.precommit_codes();
                    self.generate_precommit(codes);
                    self.phase = Phase::Precommit;
                    Ok(Progress::Pending(0))
                } else {
                    self.phase = Phase::Idle;
                    Ok(Progress::Finished)
                }
            },
        }
    }

    /// Takes what a look at the commits of the node gave.
    pub fn conclude(&mut self, commit: Option<Commit>) -> (result: BftResult<Progress>)
        requires
            old(self).wf(),
            old(self)@.can_conclude(commit_view(commit)),
        ensures
            final(self).wf(),
            final(self).node() == old(self).node(),
            final(self)@ == old(self)@.concluded(commit_view(commit)).0,
            outcome(result) == old(self)@.concluded(commit_view(commit)).1,
    {
        if self.phase == Phase::Commit {
            match commit {
                None => {
                    self.phase = Phase::Idle;
                    Err(BftError::NoCommit(self.height))
                },
                Some(commit) => {
                    self.storage_msg(Msg::Commit(commit.clone()));
                    match self.check_commit(commit) {
                        Err(error) => {
                            self.phase = Phase::Idle;
                            Err(error)
                        },
                        Ok(_) => {
                            let status = self.generate_status();
                            self.send(FrameSend::Status(status));
                            self.goto_next_height();
                            self.phase = Phase::Idle;
                            Ok(Progress::Finished)
                        },
                    }
                },
            }
        } else if self.phase == Phase::NoCommit {
            match commit {
                Some(_) => {
                    self.phase = Phase::Idle;
                    Err(BftError::CommitInvalid(self.height))
                },
                None => {
                    self.goto_next_round();
                    self.phase = Phase::Idle;
                    Ok(Progress::Finished)
                },
            }
        } else {
            Ok(self.progress())
        }
    }

    /// How far the unit under way has come.
    pub fn progress(&self) -> (progress: Progress)
        ensures
            progress == self@.pending(),
    {
        match self.phase {
            Phase::Idle => Progress::Finished,
            Phase::Commit => Progress::Pending(self.sleep_ms),
            Phase::NoCommit => Progress::Pending(NO_COMMIT_WAIT),
            _ => Progress::Pending(0),
        }
    }

    /// Takes the next step of the unit under way: draws a content and
    /// offers it, or asks the node once for its next message and takes it,
    /// or looks once at its commits. Whatever the draw or the node gives, the step is the
    /// one that [`Actuator::offer_content`], [`Actuator::deliver`] or
    /// [`Actuator::conclude`] takes of it.
    pub fn resume(&mut self) -> (result: BftResult<Progress>)
        requires
            old(self).wf(),
            old(self)@.can_resume(),
        ensures
            final(self).wf(),
            final(self).node() == old(self).node(),
            old(self)@.phase == Phase::Idle ==> final(self)@ == old(self)@ && outcome(result)
                == Ok::<Progress, BftErrorView>(Progress::Finished),
            old(self)@.phase == Phase::Content ==> outcome(result) == Ok::<
                Progress,
                BftErrorView,
            >(Progress::Pending(0)) && exists|candidate: Seq<u8>|
                (old(self)@.lock_proposal is None ==> candidate.len() == CONTENT_LENGTH)
                    && final(self)@ == #[trigger] old(self)@.content_offered(candidate),
            old(self)@.awaits_message() ==> exists|msg: FrameRecvView|
                final(self)@ == (#[trigger] old(self)@.having_heard(msg)).delivered(msg).0
                    && outcome(result) == old(self)@.having_heard(msg).delivered(msg).1,
            old(self)@.awaits_commit() ==> exists|commit: Option<CommitView>|
                final(self)@ == (#[trigger] old(self)@.concluded(commit)).0 && outcome(result)
                    == old(self)@.concluded(commit).1,
    {
        match self.phase {
            Phase::Idle => Ok(Progress::Finished),
            Phase::Content => {
                let candidate = if self.lock_proposal.is_some() {
                    Vec::new()
                } else {
                    random_content()
                };
                self.offer_content(candidate);
                assert(self@ == old(self)@.content_offered(candidate@));
                Ok(Progress::Pending(0))
            },
            Phase::Commit | Phase::NoCommit => {
                let commit = self.function.try_get_commit();
                let result = self.conclude(commit);
                assert(self@ == old(self)@.concluded(commit_view(commit)).0);
                result
            },
            _ => {
                let msg = self.recv();
                let ghost heard = msg@;
                let result = self.deliver(msg);
                assert(self@ == old(self)@.having_heard(heard).delivered(heard).0);
                result
            },
        }
    }

    /// Whether the next step can be taken without running out of heights or
    /// rounds.
    pub fn can_resume(&self) -> (can: bool)
        ensures
            can == self@.can_resume(),
    {
        match self.phase {
            Phase::Commit => self.height < u64::MAX,
            Phase::NoCommit => self.round < u64::MAX,
            _ => true,
        }
    }

    /// The height under test.
    pub fn height(&self) -> (height: u64)
        ensures
            height == self@.height,
    {
        self.height
    }

    /// The round under test.
    pub fn round(&self) -> (round: u64)
        ensures
            round == self@.round,
    {
        self.round
    }

    /// What the actuator waits for.
    pub fn phase(&self) -> (phase: Phase)
        ensures
            phase == self@.phase,
    {
        self.phase
    }

    /// The round in which the lock was set, if a lock is held.
    pub fn lock_round(&self) -> (lock_round: Option<u64>)
        ensures
            lock_round == self@.lock_round,
    {
        self.lock_round
    }

    /// A copy of the content locked on, if a lock is held.
    pub fn lock_proposal(&self) -> (content: Option<Vec<u8>>)
        ensures
            match content {
                Some(content) => self@.lock_proposal == Some(content@),
                None => self@.lock_proposal is None,
            },
    {
        match &self.lock_proposal {
            Some(content) => Some(bytes_clone(content)),
            None => None,
        }
    }

    /// A copy of the content that the round works on; empty if there is none.
    pub fn proposal(&self) -> (content: Vec<u8>)
        ensures
            content@ == self@.proposal,
    {
        bytes_clone(&self.proposal)
    }

    /// The number of validators.
    pub fn authority_count(&self) -> (count: usize)
        ensures
            count == self@.authority_list.len(),
    {
        self.authority_list.len()
    }

    /// The wait before a check that the node committed, in milliseconds.
    pub fn sleep_time(&self) -> (ms: u64)
        ensures
            ms == self@.sleep_ms,
    {
        self.sleep_ms
    }

    /// The votes of one step recorded at this height, with their counts, or
    /// `None` if there is none.
    pub fn voteset(&self, height: u64, round: u64, vote_type: VoteType) -> (set: Option<VoteSet>)
        ensures
            match set {
                Some(set) => {
                    &&& set.wf()
                    &&& set@ == step_votes(self@.votes, height, round, vote_type)
                    &&& set@.len() > 0
                },
                None => step_votes(self@.votes, height, round, vote_type).len() == 0,
            },
    {
        self.vote_cache.get_voteset(height, round, vote_type)
    }

    /// A copy of the proposal registered for a height and round. To ask for
    /// it makes it the most recently used one.
    pub fn registered(&mut self, height: u64, round: u64) -> (found: Option<Proposal>)
        requires
            old(self).wf(),
        ensures
            final(self).wf(),
            final(self).node() == old(self).node(),
            final(self)@ == (ActuatorView {
                proposals: registry_touched(old(self)@.proposals, height, round),
                ..old(self)@
            }),
            match found {
                Some(proposal) => registry_get(old(self)@.proposals, height, round) == Some(
                    proposal@,
                ),
                None => registry_get(old(self)@.proposals, height, round) is None,
            },
    {
        proof {
            lemma_touch_keeps_all(self.proposal_cache@, height, round, 0, 0);
        }
        self.proposal_cache.get_proposal(height, round)
    }

    /// The node under test.
    pub fn function(&self) -> (function: &T)
        ensures
            *function == self.node(),
    {
        &self.function
    }

    /// Begins a run: tells the node the validators and goes up one height.
    pub fn init(&mut self)
        requires
            old(self).wf(),
            old(self)@.height < u64::MAX,
        ensures
            final(self).wf(),
            final(self).node() == old(self).node(),
            final(self)@ == old(self)@.begun(),
    {
        let genesis = self.generate_status();
        self.height += 1;
        self.storage_msg(Msg::Status(genesis.clone()));
        self.send(FrameSend::Status(genesis));
    }
}

} // verus!
