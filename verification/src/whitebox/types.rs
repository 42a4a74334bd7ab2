//! The messages exchanged with the node under test, and their mathematical views.
//!
//! Every message type has a view that holds its fields as mathematical values
//! (`Seq` in place of `Vec`). `clone` and `==` are written by hand so that their
//! results are known in terms of those views.

use crate::error::{BftError, FrameError};
use vstd::prelude::*;
use vstd::std_specs::cmp::PartialEqSpecImpl;

verus! {

/// The identity of a validator.
pub type Address = Vec<u8>;

/// BFT result.
pub type BftResult<T> = Result<T, BftError>;

/// Test framework result.
pub type FrameResult<T> = Result<T, FrameError>;

/// Whether two byte strings hold the same bytes.
pub fn bytes_eq(a: &Vec<u8>, b: &Vec<u8>) -> (same: bool)
    ensures
        same == (a@ == b@),
{
    if a.len() != b.len() {
        return false;
    }
    let mut i: usize = 0;
    while i < a.len()
        invariant
            a.len() == b.len(),
            i <= a.len(),
            forall|j: int| 0 <= j < i ==> a@[j] == b@[j],
        decreases a.len() - i,
    {
        if a[i] != b[i] {
            return false;
        }
        i += 1;
    }
    assert(a@ =~= b@);
    true
}

/// A copy of a byte string.
pub fn bytes_clone(a: &Vec<u8>) -> (copy: Vec<u8>)
    ensures
        copy@ == a@,
{
    let copy = a.clone();
    assert(copy@ =~= a@);
    copy
}

/// The byte strings of a list, in its order.
pub open spec fn byte_views(list: Seq<Vec<u8>>) -> Seq<Seq<u8>> {
    Seq::new(list.len(), |i: int| list[i]@)
}

/// Whether two lists of byte strings hold the same strings in the same order.
pub fn byte_lists_eq(a: &Vec<Vec<u8>>, b: &Vec<Vec<u8>>) -> (same: bool)
    ensures
        same == (byte_views(a@) == byte_views(b@)),
{
    if a.len() != b.len() {
        assert(byte_views(a@).len() != byte_views(b@).len());
        return false;
    }
    let mut i: usize = 0;
    while i < a.len()
        invariant
            a.len() == b.len(),
            i <= a.len(),
            forall|j: int| 0 <= j < i ==> a@[j]@ == b@[j]@,
        decreases a.len() - i,
    {
        if !bytes_eq(&a[i], &b[i]) {
            assert(byte_views(a@)[i as int] != byte_views(b@)[i as int]);
            return false;
        }
        i += 1;
    }
    assert(byte_views(a@) =~= byte_views(b@));
    true
}

/// A copy of a list of byte strings.
pub fn byte_lists_clone(a: &Vec<Vec<u8>>) -> (copy: Vec<Vec<u8>>)
    ensures
        byte_views(copy@) == byte_views(a@),
{
    let copy = a.clone();
    assert forall|i: int| 0 <= i < a.len() implies copy@[i]@ == a@[i]@ by {
        assert(cloned(a@[i], copy@[i]));
        assert(copy@[i]@ =~= a@[i]@);
    }
    assert(byte_views(copy@) =~= byte_views(a@));
    copy
}

/// The two voting steps of a round.
#[derive(Clone, Copy, Debug, Hash, PartialEq, Eq, Structural)]
pub enum VoteType {
    /// First step: a vote on what the round proposes.
    Prevote,
    /// Second step: a vote to commit.
    Precommit,
}

/// A vote of one validator. An empty `proposal` is a nil vote.
#[derive(Debug, Hash, Eq)]
pub struct Vote {
    /// The height of a vote.
    pub height: u64,
    /// The round of a vote.
    pub round: u64,
    /// The vote type.
    pub vote_type: VoteType,
    /// The content voted for; empty for a nil vote.
    pub proposal: Vec<u8>,
    /// The address of the voter.
    pub voter: Address,
}

/// What a [`Vote`] holds, as mathematical values.
pub struct VoteView {
    /// The height of the vote.
    pub height: u64,
    /// The round of the vote.
    pub round: u64,
    /// The vote type.
    pub vote_type: VoteType,
    /// The content voted for; empty for a nil vote.
    pub proposal: Seq<u8>,
    /// The address of the voter.
    pub voter: Seq<u8>,
}

impl View for Vote {
    type V = VoteView;

    open spec fn view(&self) -> VoteView {
        VoteView {
            height: self.height,
            round: self.round,
            vote_type: self.vote_type,
            proposal: self.proposal@,
            voter: self.voter@,
        }
    }
}

impl Clone for Vote {
    fn clone(&self) -> (copy: Self)
        ensures
            copy@ == self@,
    {
        Vote {
            height: self.height,
            round: self.round,
            vote_type: self.vote_type,
            proposal: bytes_clone(&self.proposal),
            voter: bytes_clone(&self.voter),
        }
    }
}

impl PartialEq for Vote {
    fn eq(&self, other: &Self) -> (same: bool) {
        self.height == other.height && self.round == other.round && self.vote_type
            == other.vote_type && bytes_eq(&self.proposal, &other.proposal) && bytes_eq(
            &self.voter,
            &other.voter,
        )
    }
}

impl PartialEqSpecImpl for Vote {
    open spec fn obeys_eq_spec() -> bool {
        true
    }

    open spec fn eq_spec(&self, other: &Self) -> bool {
        self@ == other@
    }
}

/// The views of a list of votes, in its order.
pub open spec fn vote_views(votes: Seq<Vote>) -> Seq<VoteView> {
    Seq::new(votes.len(), |i: int| votes[i]@)
}

/// Whether two lists of votes hold the same votes in the same order.
pub fn votes_eq(a: &Vec<Vote>, b: &Vec<Vote>) -> (same: bool)
    ensures
        same == (vote_views(a@) == vote_views(b@)),
{
    if a.len() != b.len() {
        assert(vote_views(a@).len() != vote_views(b@).len());
        return false;
    }
    let mut i: usize = 0;
    while i < a.len()
        invariant
            a.len() == b.len(),
            i <= a.len(),
            forall|j: int| 0 <= j < i ==> a@[j]@ == b@[j]@,
        decreases a.len() - i,
    {
        if a[i] != b[i] {
            assert(vote_views(a@)[i as int] != vote_views(b@)[i as int]);
            return false;
        }
        i += 1;
    }
    assert(vote_views(a@) =~= vote_views(b@));
    true
}

/// A copy of a list of votes.
pub fn votes_clone(a: &Vec<Vote>) -> (copy: Vec<Vote>)
    ensures
        vote_views(copy@) == vote_views(a@),
{
    let copy = a.clone();
    assert forall|i: int| 0 <= i < a.len() implies copy@[i]@ == a@[i]@ by {
        assert(cloned(a@[i], copy@[i]));
    }
    assert(vote_views(copy@) =~= vote_views(a@));
    copy
}

/// A proposal: a candidate value for one height and round.
#[derive(Debug, Hash, Eq)]
pub struct Proposal {
    /// The height of a proposal.
    pub height: u64,
    /// The round of a proposal.
    pub round: u64,
    /// The proposal content.
    pub content: Vec<u8>,
    /// The address of the proposer.
    pub proposer: Address,
    /// The round in which the content was locked, `None` if it is not locked.
    pub lock_round: Option<u64>,
    /// The votes that justify the lock; empty if the content is not locked.
    pub lock_votes: Vec<Vote>,
}

/// What a [`Proposal`] holds, as mathematical values.
pub struct ProposalView {
    /// The height of the proposal.
    pub height: u64,
    /// The round of the proposal.
    pub round: u64,
    /// The proposal content.
    pub content: Seq<u8>,
    /// The address of the proposer.
    pub proposer: Seq<u8>,
    /// The round in which the content was locked, `None` if it is not locked.
    pub lock_round: Option<u64>,
    /// The votes that justify the lock.
    pub lock_votes: Seq<VoteView>,
}

impl View for Proposal {
    type V = ProposalView;

    open spec fn view(&self) -> ProposalView {
        ProposalView {
            height: self.height,
            round: self.round,
            content: self.content@,
            proposer: self.proposer@,
            lock_round: self.lock_round,
            lock_votes: vote_views(self.lock_votes@),
        }
    }
}

impl Clone for Proposal {
    fn clone(&self) -> (copy: Self)
        ensures
            copy@ == self@,
    {
        Proposal {
            height: self.height,
            round: self.round,
            content: bytes_clone(&self.content),
            proposer: bytes_clone(&self.proposer),
            lock_round: self.lock_round,
            lock_votes: votes_clone(&self.lock_votes),
        }
    }
}

impl PartialEq for Proposal {
    fn eq(&self, other: &Self) -> (same: bool) {
        self.height == other.height && self.round == other.round && bytes_eq(
            &self.content,
            &other.content,
        ) && bytes_eq(&self.proposer, &other.proposer) && self.lock_round == other.lock_round
            && votes_eq(&self.lock_votes, &other.lock_votes)
    }
}

impl PartialEqSpecImpl for Proposal {
    open spec fn obeys_eq_spec() -> bool {
        true
    }

    open spec fn eq_spec(&self, other: &Self) -> bool {
        self@ == other@
    }
}

/// A commit: the value on which the node says a height has ended.
#[derive(Debug, Hash, Eq)]
pub struct Commit {
    /// The commit node ID.
    pub node: u8,
    /// The height of the commit.
    pub height: u64,
    /// The consensus result.
    pub result: Vec<u8>,
}

/// What a [`Commit`] holds, as mathematical values.
pub struct CommitView {
    /// The commit node ID.
    pub node: u8,
    /// The height of the commit.
    pub height: u64,
    /// The consensus result.
    pub result: Seq<u8>,
}

impl View for Commit {
    type V = CommitView;

    open spec fn view(&self) -> CommitView {
        CommitView { node: self.node, height: self.height, result: self.result@ }
    }
}

impl Clone for Commit {
    fn clone(&self) -> (copy: Self)
        ensures
            copy@ == self@,
    {
        Commit { node: self.node, height: self.height, result: bytes_clone(&self.result) }
    }
}

impl PartialEq for Commit {
    fn eq(&self, other: &Self) -> (same: bool) {
        self.node == other.node && self.height == other.height && bytes_eq(
            &self.result,
            &other.result,
        )
    }
}

impl PartialEqSpecImpl for Commit {
    open spec fn obeys_eq_spec() -> bool {
        true
    }

    open spec fn eq_spec(&self, other: &Self) -> bool {
        self@ == other@
    }
}

/// Raw content handed to the node when it is the node's turn to propose.
#[derive(Debug, Hash, Eq)]
pub struct Feed {
    /// The height of a feed.
    pub height: u64,
    /// The content of a feed.
    pub proposal: Vec<u8>,
}

/// What a [`Feed`] holds, as mathematical values.
pub struct FeedView {
    /// The height of the feed.
    pub height: u64,
    /// The content of the feed.
    pub proposal: Seq<u8>,
}

impl View for Feed {
    type V = FeedView;

    open spec fn view(&self) -> FeedView {
        FeedView { height: self.height, proposal: self.proposal@ }
    }
}

impl Clone for Feed {
    fn clone(&self) -> (copy: Self)
        ensures
            copy@ == self@,
    {
        Feed { height: self.height, proposal: bytes_clone(&self.proposal) }
    }
}

impl PartialEq for Feed {
    fn eq(&self, other: &Self) -> (same: bool) {
        self.height == other.height && bytes_eq(&self.proposal, &other.proposal)
    }
}

impl PartialEqSpecImpl for Feed {
    open spec fn obeys_eq_spec() -> bool {
        true
    }

    open spec fn eq_spec(&self, other: &Self) -> bool {
        self@ == other@
    }
}

/// A rich status: the validator set of the height that follows.
#[derive(Debug, Hash, Eq)]
pub struct Status {
    /// The height of a status.
    pub height: u64,
    /// The authority list of the next height.
    pub authority_list: Vec<Address>,
}

/// What a [`Status`] holds, as mathematical values.
pub struct StatusView {
    /// The height of the status.
    pub height: u64,
    /// The authority list of the next height.
    pub authority_list: Seq<Seq<u8>>,
}

impl View for Status {
    type V = StatusView;

    open spec fn view(&self) -> StatusView {
        StatusView { height: self.height, authority_list: byte_views(self.authority_list@) }
    }
}

impl Clone for Status {
    fn clone(&self) -> (copy: Self)
        ensures
            copy@ == self@,
    {
        Status { height: self.height, authority_list: byte_lists_clone(&self.authority_list) }
    }
}

impl PartialEq for Status {
    fn eq(&self, other: &Self) -> (same: bool) {
        self.height == other.height && byte_lists_eq(&self.authority_list, &other.authority_list)
    }
}

impl PartialEqSpecImpl for Status {
    open spec fn obeys_eq_spec() -> bool {
        true
    }

    open spec fn eq_spec(&self, other: &Self) -> bool {
        self@ == other@
    }
}

/// What the framework receives from the node under test.
#[derive(Debug, Hash, Eq)]
pub enum FrameRecv {
    /// Proposal message.
    Proposal(Proposal),
    /// Vote message.
    Vote(Vote),
}

/// What a [`FrameRecv`] holds, as mathematical values.
pub enum FrameRecvView {
    /// Proposal message.
    Proposal(ProposalView),
    /// Vote message.
    Vote(VoteView),
}

impl View for FrameRecv {
    type V = FrameRecvView;

    open spec fn view(&self) -> FrameRecvView {
        match self {
            FrameRecv::Proposal(p) => FrameRecvView::Proposal(p@),
            FrameRecv::Vote(v) => FrameRecvView::Vote(v@),
        }
    }
}

impl Clone for FrameRecv {
    fn clone(&self) -> (copy: Self)
        ensures
            copy@ == self@,
    {
        match self {
            FrameRecv::Proposal(p) => FrameRecv::Proposal(p.clone()),
            FrameRecv::Vote(v) => FrameRecv::Vote(v.clone()),
        }
    }
}

impl PartialEq for FrameRecv {
    fn eq(&self, other: &Self) -> (same: bool) {
        match (self, other) {
            (FrameRecv::Proposal(a), FrameRecv::Proposal(b)) => a == b,
            (FrameRecv::Vote(a), FrameRecv::Vote(b)) => a == b,
            _ => false,
        }
    }
}

impl PartialEqSpecImpl for FrameRecv {
    open spec fn obeys_eq_spec() -> bool {
        true
    }

    open spec fn eq_spec(&self, other: &Self) -> bool {
        self@ == other@
    }
}

/// What the framework sends to the node under test.
#[derive(Debug, Hash, Eq)]
pub enum FrameSend {
    /// Proposal message.
    Proposal(Proposal),
    /// Vote message.
    Vote(Vote),
    /// Proposal content message.
    Feed(Feed),
    /// Rich status message.
    Status(Status),
}

/// What a [`FrameSend`] holds, as mathematical values.
pub enum FrameSendView {
    /// Proposal message.
    Proposal(ProposalView),
    /// Vote message.
    Vote(VoteView),
    /// Proposal content message.
    Feed(FeedView),
    /// Rich status message.
    Status(StatusView),
}

impl View for FrameSend {
    type V = FrameSendView;

    open spec fn view(&self) -> FrameSendView {
        match self {
            FrameSend::Proposal(p) => FrameSendView::Proposal(p@),
            FrameSend::Vote(v) => FrameSendView::Vote(v@),
            FrameSend::Feed(f) => FrameSendView::Feed(f@),
            FrameSend::Status(s) => FrameSendView::Status(s@),
        }
    }
}

impl Clone for FrameSend {
    fn clone(&self) -> (copy: Self)
        ensures
            copy@ == self@,
    {
        match self {
            FrameSend::Proposal(p) => FrameSend::Proposal(p.clone()),
            FrameSend::Vote(v) => FrameSend::Vote(v.clone()),
            FrameSend::Feed(f) => FrameSend::Feed(f.clone()),
            FrameSend::Status(s) => FrameSend::Status(s.clone()),
        }
    }
}

impl PartialEq for FrameSend {
    fn eq(&self, other: &Self) -> (same: bool) {
        match (self, other) {
            (FrameSend::Proposal(a), FrameSend::Proposal(b)) => a == b,
            (FrameSend::Vote(a), FrameSend::Vote(b)) => a == b,
            (FrameSend::Feed(a), FrameSend::Feed(b)) => a == b,
            (FrameSend::Status(a), FrameSend::Status(b)) => a == b,
            _ => false,
        }
    }
}

impl PartialEqSpecImpl for FrameSend {
    open spec fn obeys_eq_spec() -> bool {
        true
    }

    open spec fn eq_spec(&self, other: &Self) -> bool {
        self@ == other@
    }
}

/// What a whitebox test needs from the node under test.
pub trait Support {
    /// Send a `FrameSend` message to the testing node.
    fn send(&self, msg: FrameSend);

    /// Receive a `FrameRecv` message from the testing node.
    fn recv(&self) -> FrameRecv;

    /// Try once to get a commit message from the testing node.
    /// If it does not commit, return `None`.
    fn try_get_commit(&self) -> Option<Commit>;

    /// Stop the testing node.
    fn stop(&self);

    /// The place in the authority list of the proposer that the node's rule
    /// gives for a height and round. An implementation gives here what
    /// [`Support::cal_proposer`] answers.
    spec fn proposer(&self, height: u64, round: u64) -> usize;

    /// Determine the proposer index in the authority list by
    /// the given height and round. The rule is a pure query: what it gives
    /// depends on the height and the round alone.
    fn cal_proposer(&self, height: u64, round: u64) -> (index: usize)
        ensures
            index == self.proposer(height, round),
    ;
}

} // verus!
