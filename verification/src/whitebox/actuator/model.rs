//! The state of a test run as mathematical values, and the steps of the run
//! as functions on that state.

use crate::error::BftErrorView;
use crate::whitebox::collection::proposal_cache::{
    registry_added, registry_get, registry_touched, registry_wf, Registry,
};
use crate::whitebox::collection::util::MsgView;
use crate::whitebox::collection::vote_cache::{polc, step_votes, tally};
use crate::whitebox::correctness::test_case::{uniform, BYZANTINE, NIL, NORMAL};
use crate::whitebox::quorum::supermajority;
use crate::whitebox::types::{
    Commit, CommitView, FeedView, FrameRecv, FrameRecvView, FrameSendView, ProposalView,
    StatusView, VoteType, VoteView,
};
use vstd::prelude::*;

verus! {

/// The time, in milliseconds, that the node is given before a check that it
/// did not commit.
pub const NO_COMMIT_WAIT: u64 = 120;

/// The time, in milliseconds, that the node is given by default before a
/// check that it committed.
pub const DEFAULT_COMMIT_WAIT: u64 = 150;

/// The least number of votes that prove a lock among four validators.
pub const POLC_FLOOR: usize = 3;

/// The number of bytes of a content that the framework makes up.
pub const CONTENT_LENGTH: usize = 6;

/// What the actuator waits for.
#[derive(Clone, Copy, Debug, Hash, PartialEq, Eq, Structural)]
pub enum Phase {
    /// No unit is under way.
    Idle,
    /// A content to propose that is not on the denylist.
    Content,
    /// The proposal that the node makes of the content fed to it.
    Proposal,
    /// The prevote of the node.
    Prevote,
    /// The precommit of the node.
    Precommit,
    /// The commit of the node, which has to come.
    Commit,
    /// The time after which the node must not have committed.
    NoCommit,
}

/// How far a unit has come.
#[derive(Clone, Copy, Debug, Hash, PartialEq, Eq, Structural)]
pub enum Progress {
    /// The unit is done: the next one can begin.
    Finished,
    /// The unit goes on after a wait of that many milliseconds.
    Pending(u64),
    /// The node named a proposer that the authority list does not hold:
    /// the unit did not begin.
    BadProposer(usize),
}

/// The views of a list of messages of the node, in its order.
pub open spec fn recv_views(messages: Seq<FrameRecv>) -> Seq<FrameRecvView> {
    Seq::new(messages.len(), |i: int| messages[i]@)
}

/// What a look at the commits of the node gave, as mathematical values.
pub open spec fn commit_view(commit: Option<Commit>) -> Option<CommitView> {
    match commit {
        Some(commit) => Some(commit@),
        None => None,
    }
}

/// The three contents that stand for Byzantine values.
pub open spec fn denylist() -> Seq<Seq<u8>> {
    seq![uniform(0), uniform(1), uniform(2)]
}

/// The state of a test run, as mathematical values.
pub struct ActuatorView {
    /// The height under test.
    pub height: u64,
    /// The round under test.
    pub round: u64,
    /// The round in which the lock was set, if a lock is held.
    pub lock_round: Option<u64>,
    /// The prevotes that prove the lock.
    pub lock_votes: Seq<VoteView>,
    /// The content locked on, if a lock is held.
    pub lock_proposal: Option<Seq<u8>>,
    /// The validators; the first is the node under test.
    pub authority_list: Seq<Seq<u8>>,
    /// The content that the round works on; empty if there is none.
    pub proposal: Seq<u8>,
    /// The contents that stand for Byzantine values.
    pub byzantine: Seq<Seq<u8>>,
    /// The wait before a check that the node committed, in milliseconds.
    pub sleep_ms: u64,
    /// The votes recorded at this height.
    pub votes: Seq<VoteView>,
    /// The proposals registered.
    pub proposals: Registry,
    /// The messages of the node seen at this height.
    pub seen: Seq<FrameRecvView>,
    /// The records made for the audit trail and not yet taken.
    pub journal: Seq<MsgView>,
    /// The messages handed to the node since the actuator was made.
    pub sent: Seq<FrameSendView>,
    /// The messages taken from the node since the actuator was made, one for
    /// each time that it was asked, replays among them.
    pub heard: Seq<FrameRecvView>,
    /// What the actuator waits for.
    pub phase: Phase,
    /// The unit under way.
    pub unit: Seq<u8>,
    /// The place of the round's proposer in the authority list.
    pub proposer: usize,
}

impl ActuatorView {
    /// What ties the parts of the state together.
    pub open spec fn valid(self) -> bool {
        &&& self.authority_list.len() >= 4
        &&& self.byzantine == denylist()
        &&& self.lock_round is Some <==> self.lock_proposal is Some
        &&& registry_wf(self.proposals)
        &&& self.unit.len() == 6
        &&& self.phase == Phase::Content ==> self.proposer < self.authority_list.len()
    }

    /// The state with one more record in the journal.
    pub open spec fn recorded(self, record: MsgView) -> Self {
        ActuatorView { journal: self.journal.push(record), ..self }
    }

    /// The state after a message was handed to the node.
    pub open spec fn handed(self, msg: FrameSendView) -> Self {
        ActuatorView { sent: self.sent.push(msg), ..self }
    }

    /// The state after the node was asked for a message and gave this one.
    pub open spec fn having_heard(self, msg: FrameRecvView) -> Self {
        ActuatorView { heard: self.heard.push(msg), ..self }
    }

    /// The state in another phase.
    pub open spec fn awaiting(self, phase: Phase) -> Self {
        ActuatorView { phase, ..self }
    }

    /// The state with a lock on `content`, set in the round under way.
    pub open spec fn with_polc(self, content: Seq<u8>) -> Self {
        ActuatorView {
            proposal: content,
            lock_round: Some(self.round),
            lock_proposal: Some(content),
            ..self
        }
    }

    /// The state without a lock and without a content to work on.
    pub open spec fn without_polc(self) -> Self {
        ActuatorView {
            proposal: Seq::empty(),
            lock_round: None,
            lock_votes: Seq::empty(),
            lock_proposal: None,
            ..self
        }
    }

    /// The state in the next round: the content to work on is the one locked
    /// on, or none.
    pub open spec fn next_round(self) -> Self {
        ActuatorView {
            proposal: match self.lock_proposal {
                Some(content) => content,
                None => Seq::empty(),
            },
            round: (self.round + 1) as u64,
            ..self
        }
    }

    /// The state at the next height: no vote, no message seen, no lock, round 0.
    pub open spec fn next_height(self) -> Self {
        ActuatorView {
            votes: Seq::empty(),
            seen: Seq::empty(),
            round: 0,
            height: (self.height + 1) as u64,
            ..self.without_polc()
        }
    }

    /// The status that tells the node the validators of the height that follows.
    pub open spec fn status(self) -> StatusView {
        StatusView { height: self.height, authority_list: self.authority_list }
    }

    /// The state after a run was begun: the status of the first height was
    /// recorded, by the step that made it and again by the step that sent it,
    /// it was handed to the node, and the height went up.
    pub open spec fn begun(self) -> Self {
        let record = MsgView::Status(self.status());
        ActuatorView {
            height: (self.height + 1) as u64,
            journal: self.journal.push(record).push(record),
            sent: self.sent.push(FrameSendView::Status(self.status())),
            ..self
        }
    }

    /// Whether a content is on the denylist.
    pub open spec fn denylisted(self, content: Seq<u8>) -> bool {
        self.byzantine.contains(content)
    }

    /// The content that goes out when `candidate` is at hand: the content
    /// locked on if a lock is held, the candidate otherwise.
    pub open spec fn offered(self, candidate: Seq<u8>) -> Seq<u8> {
        match self.lock_proposal {
            Some(content) => content,
            None => candidate,
        }
    }

    /// The content that a validator who behaves normally votes for: the
    /// content locked on if a lock is held, the content worked on otherwise.
    pub open spec fn stance(self) -> Seq<u8> {
        self.offered(self.proposal)
    }

    /// The feed that hands the node the content to propose.
    pub open spec fn feed(self, candidate: Seq<u8>) -> FeedView {
        FeedView { height: self.height, proposal: self.offered(candidate) }
    }

    /// The state after the node was fed a content: the feed was recorded and
    /// handed to the node.
    pub open spec fn fed(self, candidate: Seq<u8>) -> Self {
        self.recorded(MsgView::Feed(self.feed(candidate))).handed(
            FrameSendView::Feed(self.feed(candidate)),
        )
    }

    /// The proposal made in the name of the validator at `auth_index`. It
    /// carries the lock.
    pub open spec fn proposal_of(self, auth_index: int, candidate: Seq<u8>) -> ProposalView {
        ProposalView {
            height: self.height,
            round: self.round,
            content: self.offered(candidate),
            proposer: self.authority_list[auth_index],
            lock_round: self.lock_round,
            lock_votes: self.lock_votes,
        }
    }

    /// The state after a proposal was made in the name of the validator at
    /// `auth_index`: its content is worked on, and it is registered, recorded
    /// and handed to the node.
    pub open spec fn proposed(self, auth_index: int, candidate: Seq<u8>) -> Self {
        let proposal = self.proposal_of(auth_index, candidate);
        ActuatorView {
            proposal: proposal.content,
            proposals: registry_added(self.proposals, proposal),
            journal: self.journal.push(MsgView::Proposal(proposal)),
            sent: self.sent.push(FrameSendView::Proposal(proposal)),
            ..self
        }
    }

    /// The vote that the validator at `index + 1` casts under a behaviour
    /// code, if it casts one: for the normal stance, for its Byzantine
    /// content, or for nothing.
    pub open spec fn cast(self, index: int, code: u8, vote_type: VoteType) -> Option<VoteView> {
        let content = if code == NORMAL {
            Some(self.stance())
        } else if code == BYZANTINE {
            Some(self.byzantine[index])
        } else if code == NIL {
            Some(Seq::<u8>::empty())
        } else {
            None
        };
        match content {
            Some(proposal) => Some(
                VoteView {
                    height: self.height,
                    round: self.round,
                    vote_type,
                    proposal,
                    voter: self.authority_list[index + 1],
                },
            ),
            None => None,
        }
    }

    /// The votes that the first `upto` other validators cast under their codes.
    pub open spec fn casts(self, codes: Seq<u8>, vote_type: VoteType, upto: int) -> Seq<VoteView>
        decreases upto,
    {
        if upto <= 0 {
            Seq::empty()
        } else {
            let earlier = self.casts(codes, vote_type, upto - 1);
            match self.cast(upto - 1, codes[upto - 1], vote_type) {
                Some(vote) => earlier.push(vote),
                None => earlier,
            }
        }
    }

    /// The state after the other validators, three at most, voted under
    /// their codes: their votes are counted, recorded and handed to the node.
    pub open spec fn voted(self, codes: Seq<u8>, vote_type: VoteType) -> Self {
        let votes = self.casts(codes, vote_type, voters(codes));
        ActuatorView {
            votes: self.votes + votes,
            journal: self.journal + vote_records(votes),
            sent: self.sent + vote_frames(votes),
            ..self
        }
    }
}

impl ActuatorView {
    /// The state after a vote of the node was counted and recorded.
    pub open spec fn received(self, vote: VoteView) -> Self {
        ActuatorView {
            votes: self.votes.push(vote),
            journal: self.journal.push(MsgView::Vote(vote)),
            ..self
        }
    }

    /// What becomes of a message of the node that is taken as its vote of a
    /// step: a proposal is out of place, a vote of another step or for a
    /// denylisted content is illegal, and any other vote is counted.
    pub open spec fn vote_taken(self, msg: FrameRecvView, vote_type: VoteType) -> (
        Self,
        Result<VoteView, BftErrorView>,
    ) {
        match msg {
            FrameRecvView::Proposal(proposal) => (
                self,
                Err(BftErrorView::AbnormalProposal(proposal)),
            ),
            FrameRecvView::Vote(vote) => if vote.vote_type != vote_type || self.denylisted(
                vote.proposal,
            ) {
                (self, Err(BftErrorView::IllegalVote(vote)))
            } else {
                (self.received(vote), Ok(vote))
            },
        }
    }

    /// Whether a proposal of the node carries the lock as it has to: with a
    /// lock held it names a lock round and the content locked on, and
    /// without one it names no lock round.
    pub open spec fn carries_lock(self, proposal: ProposalView) -> bool {
        if self.lock_round is Some {
            proposal.lock_round is Some && Some(proposal.content) == self.lock_proposal
        } else {
            proposal.lock_round is None
        }
    }

    /// What becomes of a message of the node that is taken as its proposal:
    /// a vote is out of place, a proposal that does not carry the lock is
    /// illegal, and any other proposal is registered, and its content is
    /// worked on.
    pub open spec fn proposal_checked(self, msg: FrameRecvView) -> (
        Self,
        Result<(), BftErrorView>,
    ) {
        match msg {
            FrameRecvView::Vote(vote) => (self, Err(BftErrorView::AbnormalVote(vote))),
            FrameRecvView::Proposal(proposal) => if self.carries_lock(proposal) {
                (
                    ActuatorView {
                        proposals: registry_added(self.proposals, proposal),
                        proposal: proposal.content,
                        ..self
                    },
                    Ok(()),
                )
            } else {
                (self, Err(BftErrorView::IllegalProposal(self.height, self.round)))
            },
        }
    }

    /// The state after the prevote counts from the place `from` on were gone
    /// through, and whether no content had a supermajority: a content with a
    /// supermajority is locked on, and the empty content with one ends the lock.
    pub open spec fn prevotes_scanned(
        self,
        counts: Seq<(Seq<u8>, nat)>,
        from: int,
        clean: bool,
    ) -> (Self, bool)
        decreases counts.len() - from,
    {
        if from < 0 || from >= counts.len() {
            (self, clean)
        } else if supermajority(counts[from].1 as int, self.authority_list.len() as int) {
            let next = if counts[from].0.len() > 0 {
                self.with_polc(counts[from].0)
            } else {
                self.without_polc()
            };
            next.prevotes_scanned(counts, from + 1, false)
        } else {
            self.prevotes_scanned(counts, from + 1, clean)
        }
    }

    /// What becomes of a message of the node that is taken as its prevote:
    /// once counted, the prevotes of the round decide on the lock, and where
    /// no content has a supermajority the round works on no content.
    pub open spec fn prevote_checked(self, msg: FrameRecvView) -> (Self, Result<(), BftErrorView>) {
        let (taken, vote) = self.vote_taken(msg, VoteType::Prevote);
        match vote {
            Err(error) => (taken, Err(error)),
            Ok(vote) => {
                let step = step_votes(taken.votes, self.height, self.round, VoteType::Prevote);
                if step.len() == 0 {
                    (taken, Err(BftErrorView::IllegalVote(vote)))
                } else {
                    let (scanned, clean) = taken.prevotes_scanned(tally(step), 0, true);
                    if clean {
                        (ActuatorView { proposal: Seq::empty(), ..scanned }, Ok(()))
                    } else {
                        (scanned, Ok(()))
                    }
                }
            },
        }
    }

    /// What the prevote counts from the place `from` on say of a precommit
    /// for `content`: a content with a supermajority has to be the one
    /// precommitted, and the prevotes for it, `evidence`, have to be
    /// [`POLC_FLOOR`] at least; they then become the proof of the lock.
    pub open spec fn precommits_scanned(
        self,
        counts: Seq<(Seq<u8>, nat)>,
        from: int,
        content: Seq<u8>,
        evidence: Seq<VoteView>,
    ) -> (Self, Result<(), BftErrorView>)
        decreases counts.len() - from,
    {
        if from < 0 || from >= counts.len() {
            (self, Ok(()))
        } else if supermajority(counts[from].1 as int, self.authority_list.len() as int) {
            if counts[from].0 != content {
                (self, Err(BftErrorView::PrecommitErr(self.height, self.round)))
            } else if evidence.len() < POLC_FLOOR {
                (self, Err(BftErrorView::PrecommitDiffPoLC(self.height, self.round)))
            } else {
                (ActuatorView { lock_votes: evidence, ..self }).precommits_scanned(
                    counts,
                    from + 1,
                    content,
                    evidence,
                )
            }
        } else {
            self.precommits_scanned(counts, from + 1, content, evidence)
        }
    }

    /// What becomes of a message of the node that is taken as its precommit:
    /// once counted, it has to stand on a supermajority of prevotes of the
    /// round, and on the content that they agree on.
    pub open spec fn precommit_checked(self, msg: FrameRecvView) -> (
        Self,
        Result<(), BftErrorView>,
    ) {
        let (taken, vote) = self.vote_taken(msg, VoteType::Precommit);
        match vote {
            Err(error) => (taken, Err(error)),
            Ok(vote) => {
                let step = step_votes(taken.votes, self.height, self.round, VoteType::Prevote);
                if step.len() == 0 {
                    (taken, Err(BftErrorView::IllegalVote(vote)))
                } else if !supermajority(step.len() as int, self.authority_list.len() as int) {
                    (taken, Err(BftErrorView::ShouldNotPrecommit(self.height, self.round)))
                } else {
                    taken.precommits_scanned(
                        tally(step),
                        0,
                        vote.proposal,
                        polc(
                            taken.votes,
                            self.height,
                            self.round,
                            VoteType::Prevote,
                            vote.proposal,
                        ),
                    )
                }
            },
        }
    }

    /// Whether a commit of `result` is right: the content is not denylisted,
    /// a lock is held, the content is the one worked on and the one of the
    /// proposal registered for the height and round, and [`POLC_FLOOR`]
    /// precommits of the round at least are for it.
    pub open spec fn commit_correct(self, result: Seq<u8>) -> bool {
        &&& !self.denylisted(result)
        &&& self.lock_round is Some
        &&& self.proposal == result
        &&& registry_get(self.proposals, self.height, self.round) matches Some(proposal)
        &&& proposal.content == result
        &&& polc(self.votes, self.height, self.round, VoteType::Precommit, result).len()
            >= POLC_FLOOR
    }

    /// What becomes of a commit of `result`: it is right or incorrect. The
    /// registered proposal is asked for only where the content is not
    /// denylisted and is the one worked on under a lock.
    pub open spec fn commit_checked(self, result: Seq<u8>) -> (Self, Result<(), BftErrorView>) {
        let asked = if self.denylisted(result) || self.lock_round is None || self.proposal
            != result {
            self
        } else {
            ActuatorView {
                proposals: registry_touched(self.proposals, self.height, self.round),
                ..self
            }
        };
        if self.commit_correct(result) {
            (asked, Ok(()))
        } else {
            (asked, Err(BftErrorView::CommitIncorrect(self.height)))
        }
    }
}

impl ActuatorView {
    /// How far the unit under way has come.
    pub open spec fn pending(self) -> Progress {
        match self.phase {
            Phase::Idle => Progress::Finished,
            Phase::Commit => Progress::Pending(self.sleep_ms),
            Phase::NoCommit => Progress::Pending(NO_COMMIT_WAIT),
            _ => Progress::Pending(0),
        }
    }

    /// Whether a message of the node is waited for.
    pub open spec fn awaits_message(self) -> bool {
        self.phase == Phase::Proposal || self.phase == Phase::Prevote || self.phase
            == Phase::Precommit
    }

    /// Whether a look at the commits of the node is due.
    pub open spec fn awaits_commit(self) -> bool {
        self.phase == Phase::Commit || self.phase == Phase::NoCommit
    }

    /// The codes of the unit under way for the prevotes.
    pub open spec fn prevote_codes(self) -> Seq<u8> {
        self.unit.subrange(0, 3)
    }

    /// The codes of the unit under way for the precommits.
    pub open spec fn precommit_codes(self) -> Seq<u8> {
        self.unit.subrange(3, 6)
    }

    /// What a unit begins with, given the place `proposer` that the node
    /// names for the round. A sentinel needs no proposer: the round passes,
    /// or a look at the commits of the node is due after a wait. A round of
    /// votes begins with the content to propose, unless the proposer is not
    /// in the authority list: nothing then begins.
    pub open spec fn started(self, unit: Seq<u8>, proposer: usize) -> (Self, Progress) {
        if unit == uniform(8) {
            (ActuatorView { unit, phase: Phase::Commit, ..self }, Progress::Pending(self.sleep_ms))
        } else if unit == uniform(7) {
            (ActuatorView { unit, phase: Phase::Idle, ..self.next_round() }, Progress::Finished)
        } else if unit == uniform(9) {
            (
                ActuatorView { unit, phase: Phase::NoCommit, ..self },
                Progress::Pending(NO_COMMIT_WAIT),
            )
        } else if proposer >= self.authority_list.len() {
            (self, Progress::BadProposer(proposer))
        } else {
            (ActuatorView { unit, proposer, phase: Phase::Content, ..self }, Progress::Pending(0))
        }
    }

    /// Whether a candidate can be proposed: a lock is held, so that the
    /// content locked on goes out in its place, or the candidate is not
    /// denylisted and not empty, which would stand for no content.
    pub open spec fn proposable(self, candidate: Seq<u8>) -> bool {
        self.lock_proposal is Some || (!self.denylisted(candidate) && candidate.len() > 0)
    }

    /// What a candidate content leads to while a content is waited for. One
    /// that cannot be proposed changes nothing. Otherwise, where the node
    /// proposes, it is fed the content and its proposal is waited for; where
    /// another validator does, the proposal is made in its name, the
    /// prevotes follow and the prevote of the node is waited for.
    pub open spec fn content_offered(self, candidate: Seq<u8>) -> Self {
        if self.phase != Phase::Content || !self.proposable(candidate) {
            self
        } else if self.proposer == 0 {
            self.fed(candidate).awaiting(Phase::Proposal)
        } else {
            self.proposed(self.proposer as int, candidate).voted(
                self.prevote_codes(),
                VoteType::Prevote,
            ).awaiting(Phase::Prevote)
        }
    }

    /// What a message of the node leads to. Where none is waited for, or
    /// where it was seen before at this height, nothing changes. Otherwise it
    /// is seen from now on and checked as the phase asks: a failure ends the
    /// unit, a proposal is followed by the prevotes, a prevote by the
    /// precommits, and a precommit ends the unit.
    pub open spec fn delivered(self, msg: FrameRecvView) -> (
        Self,
        Result<Progress, BftErrorView>,
    ) {
        if !self.awaits_message() {
            (self, Ok(self.pending()))
        } else if self.seen.contains(msg) {
            (self, Ok(Progress::Pending(0)))
        } else {
            let noted = ActuatorView { seen: self.seen.push(msg), ..self };
            let (checked, verdict) = if self.phase == Phase::Proposal {
                noted.proposal_checked(msg)
            } else if self.phase == Phase::Prevote {
                noted.prevote_checked(msg)
            } else {
                noted.precommit_checked(msg)
            };
            match verdict {
                Err(error) => (checked.awaiting(Phase::Idle), Err(error)),
                Ok(_) => if self.phase == Phase::Proposal {
                    (
                        checked.voted(self.prevote_codes(), VoteType::Prevote).awaiting(
                            Phase::Prevote,
                        ),
                        Ok(Progress::Pending(0)),
                    )
                } else if self.phase == Phase::Prevote {
                    (
                        checked.voted(self.precommit_codes(), VoteType::Precommit).awaiting(
                            Phase::Precommit,
                        ),
                        Ok(Progress::Pending(0)),
                    )
                } else {
                    (checked.awaiting(Phase::Idle), Ok(Progress::Finished))
                },
            }
        }
    }

    /// What a look at the commits of the node leads to. Where a commit has
    /// to be there, a missing one fails; one that is there is recorded and
    /// checked, and a right one is followed by the status, which is recorded
    /// and handed to the node, and by the next height. Where none may be
    /// there, one that is there fails, and without one the next round
    /// begins. Where no look is due, nothing changes.
    pub open spec fn concluded(self, commit: Option<CommitView>) -> (
        Self,
        Result<Progress, BftErrorView>,
    ) {
        if self.phase == Phase::Commit {
            match commit {
                None => (self.awaiting(Phase::Idle), Err(BftErrorView::NoCommit(self.height))),
                Some(commit) => {
                    let (checked, verdict) = self.recorded(MsgView::Commit(commit)).commit_checked(
                        commit.result,
                    );
                    match verdict {
                        Err(error) => (checked.awaiting(Phase::Idle), Err(error)),
                        Ok(_) => (
                            checked.recorded(MsgView::Status(checked.status())).handed(
                                FrameSendView::Status(checked.status()),
                            ).next_height().awaiting(Phase::Idle),
                            Ok(Progress::Finished),
                        ),
                    }
                },
            }
        } else if self.phase == Phase::NoCommit {
            match commit {
                Some(_) => (
                    self.awaiting(Phase::Idle),
                    Err(BftErrorView::CommitInvalid(self.height)),
                ),
                None => (self.next_round().awaiting(Phase::Idle), Ok(Progress::Finished)),
            }
        } else {
            (self, Ok(self.pending()))
        }
    }

    /// Whether what a look at the commits of the node gave can be taken
    /// without running out of heights or rounds: a right commit where one has
    /// to be there takes a further height, and no commit where none may be
    /// there takes a further round.
    pub open spec fn can_conclude(self, commit: Option<CommitView>) -> bool {
        &&& self.phase == Phase::Commit && self.concluded(commit).1 is Ok ==> self.height
            < u64::MAX
        &&& self.phase == Phase::NoCommit && commit is None ==> self.round < u64::MAX
    }

    /// Whether the next step can be taken without running out of heights or
    /// rounds, whatever the node gives.
    pub open spec fn can_resume(self) -> bool {
        &&& self.phase == Phase::Commit ==> self.height < u64::MAX
        &&& self.phase == Phase::NoCommit ==> self.round < u64::MAX
    }
}

impl ActuatorView {
    /// The state after `rounds` rounds went by.
    pub open spec fn rounds_on(self, rounds: nat) -> Self
        decreases rounds,
    {
        if rounds == 0 {
            self
        } else {
            self.rounds_on((rounds - 1) as nat).next_round()
        }
    }
}

/// The number of validators that vote under a list of codes: three at most.
pub open spec fn voters(codes: Seq<u8>) -> int {
    if codes.len() < 3 {
        codes.len() as int
    } else {
        3
    }
}

/// A list of votes as messages to the node, in its order.
pub open spec fn vote_frames(votes: Seq<VoteView>) -> Seq<FrameSendView> {
    Seq::new(votes.len(), |i: int| FrameSendView::Vote(votes[i]))
}

/// The records of a list of votes, in its order.
pub open spec fn vote_records(votes: Seq<VoteView>) -> Seq<MsgView> {
    Seq::new(votes.len(), |i: int| MsgView::Vote(votes[i]))
}

} // verus!
