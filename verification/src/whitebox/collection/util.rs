//! The records of the audit trail.

use crate::whitebox::types::{
    Commit, CommitView, Feed, FeedView, Proposal, ProposalView, Status, StatusView, Vote, VoteView,
};
use vstd::prelude::*;
use vstd::std_specs::cmp::PartialEqSpecImpl;

verus! {

/// A protocol message as it is kept for the audit trail, tagged with its kind.
#[derive(Debug, Hash, Eq)]
pub enum Msg {
    /// A proposal that the framework made.
    Proposal(Proposal),
    /// A vote that the framework made or took from the node.
    Vote(Vote),
    /// A content that the framework fed to the node.
    Feed(Feed),
    /// A status that the framework made.
    Status(Status),
    /// A commit of the node.
    Commit(Commit),
}

/// What a [`Msg`] holds, as mathematical values.
pub enum MsgView {
    /// A proposal that the framework made.
    Proposal(ProposalView),
    /// A vote that the framework made or took from the node.
    Vote(VoteView),
    /// A content that the framework fed to the node.
    Feed(FeedView),
    /// A status that the framework made.
    Status(StatusView),
    /// A commit of the node.
    Commit(CommitView),
}

impl View for Msg {
    type V = MsgView;

    open spec fn view(&self) -> MsgView {
        match self {
            Msg::Proposal(p) => MsgView::Proposal(p@),
            Msg::Vote(v) => MsgView::Vote(v@),
            Msg::Feed(f) => MsgView::Feed(f@),
            Msg::Status(s) => MsgView::Status(s@),
            Msg::Commit(c) => MsgView::Commit(c@),
        }
    }
}

impl Clone for Msg {
    fn clone(&self) -> (copy: Self)
        ensures
            copy@ == self@,
    {
        match self {
            Msg::Proposal(p) => Msg::Proposal(p.clone()),
            Msg::Vote(v) => Msg::Vote(v.clone()),
            Msg::Feed(f) => Msg::Feed(f.clone()),
            Msg::Status(s) => Msg::Status(s.clone()),
            Msg::Commit(c) => Msg::Commit(c.clone()),
        }
    }
}

impl PartialEq for Msg {
    fn eq(&self, other: &Self) -> (same: bool) {
        match (self, other) {
            (Msg::Proposal(a), Msg::Proposal(b)) => a == b,
            (Msg::Vote(a), Msg::Vote(b)) => a == b,
            (Msg::Feed(a), Msg::Feed(b)) => a == b,
            (Msg::Status(a), Msg::Status(b)) => a == b,
            (Msg::Commit(a), Msg::Commit(b)) => a == b,
            _ => false,
        }
    }
}

impl PartialEqSpecImpl for Msg {
    open spec fn obeys_eq_spec() -> bool {
        true
    }

    open spec fn eq_spec(&self, other: &Self) -> bool {
        self@ == other@
    }
}

/// The views of a list of records, in its order.
pub open spec fn msg_views(records: Seq<Msg>) -> Seq<MsgView> {
    Seq::new(records.len(), |i: int| records[i]@)
}

} // verus!
