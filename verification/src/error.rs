//! The conditions under which a test fails.

use crate::whitebox::types::{Proposal, ProposalView, Vote, VoteType, VoteView};
use vstd::prelude::*;

verus! {

/// A violation of the protocol that the oracle found.
#[derive(Debug)]
pub enum BftError {
    /// The node committed a value that differs from an earlier commit of the height.
    CommitDiff(u64),
    /// The node committed a value that the oracle's own record does not support.
    CommitIncorrect(u64),
    /// The node committed when it should not have.
    CommitInvalid(u64),
    /// A commit arrived out of sequence.
    MislaidCommit(u64),
    /// The node committed more than once at a height.
    MultipleCommit(u64),
    /// A precommit was checked against prevotes that lack a supermajority.
    ShouldNotPrecommit(u64, u64),
    /// A proposal arrived where a vote was expected.
    AbnormalProposal(Proposal),
    /// A vote arrived where a proposal was expected.
    AbnormalVote(Vote),
    /// A vote of the wrong step, or for a denylisted content.
    IllegalVote(Vote),
    /// No vote of the expected step was there to check.
    GetNoVote(u64, u64, VoteType),
    /// The precommit's content differs from what the prevotes agreed on.
    PrecommitErr(u64, u64),
    /// The prevotes behind a precommit are too few.
    PrecommitDiffPoLC(u64, u64),
    /// A proposal breaks the lock it had to carry.
    IllegalProposal(u64, u64),
    /// The node did not commit when it had to.
    NoCommit(u64),
}

/// What a [`BftError`] holds, as mathematical values.
pub enum BftErrorView {
    /// See [`BftError::CommitDiff`].
    CommitDiff(u64),
    /// See [`BftError::CommitIncorrect`].
    CommitIncorrect(u64),
    /// See [`BftError::CommitInvalid`].
    CommitInvalid(u64),
    /// See [`BftError::MislaidCommit`].
    MislaidCommit(u64),
    /// See [`BftError::MultipleCommit`].
    MultipleCommit(u64),
    /// See [`BftError::ShouldNotPrecommit`].
    ShouldNotPrecommit(u64, u64),
    /// See [`BftError::AbnormalProposal`].
    AbnormalProposal(ProposalView),
    /// See [`BftError::AbnormalVote`].
    AbnormalVote(VoteView),
    /// See [`BftError::IllegalVote`].
    IllegalVote(VoteView),
    /// See [`BftError::GetNoVote`].
    GetNoVote(u64, u64, VoteType),
    /// See [`BftError::PrecommitErr`].
    PrecommitErr(u64, u64),
    /// See [`BftError::PrecommitDiffPoLC`].
    PrecommitDiffPoLC(u64, u64),
    /// See [`BftError::IllegalProposal`].
    IllegalProposal(u64, u64),
    /// See [`BftError::NoCommit`].
    NoCommit(u64),
}

impl View for BftError {
    type V = BftErrorView;

    open spec fn view(&self) -> BftErrorView {
        match self {
            BftError::CommitDiff(h) => BftErrorView::CommitDiff(*h),
            BftError::CommitIncorrect(h) => BftErrorView::CommitIncorrect(*h),
            BftError::CommitInvalid(h) => BftErrorView::CommitInvalid(*h),
            BftError::MislaidCommit(h) => BftErrorView::MislaidCommit(*h),
            BftError::MultipleCommit(h) => BftErrorView::MultipleCommit(*h),
            BftError::ShouldNotPrecommit(h, r) => BftErrorView::ShouldNotPrecommit(*h, *r),
            BftError::AbnormalProposal(p) => BftErrorView::AbnormalProposal(p@),
            BftError::AbnormalVote(v) => BftErrorView::AbnormalVote(v@),
            BftError::IllegalVote(v) => BftErrorView::IllegalVote(v@),
            BftError::GetNoVote(h, r, t) => BftErrorView::GetNoVote(*h, *r, *t),
            BftError::PrecommitErr(h, r) => BftErrorView::PrecommitErr(*h, *r),
            BftError::PrecommitDiffPoLC(h, r) => BftErrorView::PrecommitDiffPoLC(*h, *r),
            BftError::IllegalProposal(h, r) => BftErrorView::IllegalProposal(*h, *r),
            BftError::NoCommit(h) => BftErrorView::NoCommit(*h),
        }
    }
}

/// A result with its error, if it is one, as mathematical values.
pub open spec fn outcome<T>(result: Result<T, BftError>) -> Result<T, BftErrorView> {
    match result {
        Ok(value) => Ok(value),
        Err(error) => Err(error@),
    }
}

/// A failure of the framework itself.
#[derive(Debug)]
pub enum FrameError {
    /// The audit store refused a record.
    SQLiteErr(usize),
}

/// The text that the derived `Debug` gives for a proposal.
pub uninterp spec fn proposal_debug(proposal: ProposalView) -> Seq<char>;

/// The text that the derived `Debug` gives for a vote.
pub uninterp spec fn vote_debug(vote: VoteView) -> Seq<char>;

/// `format!` with `{:?}` on a proposal: its fields by name with their
/// values, as the derived `Debug` writes them. The text depends on nothing
/// but the fields.
#[verifier::external_body]
fn debug_proposal(proposal: &Proposal) -> (text: String)
    ensures
        text@ == proposal_debug(proposal@),
{
    format!("{:?}", proposal)
}

/// `format!` with `{:?}` on a vote: its fields by name with their values, as
/// the derived `Debug` writes them. The text depends on nothing but the fields.
#[verifier::external_body]
fn debug_vote(vote: &Vote) -> (text: String)
    ensures
        text@ == vote_debug(vote@),
{
    format!("{:?}", vote)
}

/// The character of a decimal digit.
pub open spec fn digit(value: nat) -> char {
    if value == 0 {
        '0'
    } else if value == 1 {
        '1'
    } else if value == 2 {
        '2'
    } else if value == 3 {
        '3'
    } else if value == 4 {
        '4'
    } else if value == 5 {
        '5'
    } else if value == 6 {
        '6'
    } else if value == 7 {
        '7'
    } else if value == 8 {
        '8'
    } else {
        '9'
    }
}

/// A number in decimal digits, without leading zeros.
pub open spec fn decimal(number: nat) -> Seq<char>
    decreases number,
{
    if number < 10 {
        seq![digit(number)]
    } else {
        decimal(number / 10).push(digit(number % 10))
    }
}

/// The name of a vote type.
pub open spec fn vote_type_name(vote_type: VoteType) -> Seq<char> {
    match vote_type {
        VoteType::Prevote => "Prevote"@,
        VoteType::Precommit => "Precommit"@,
    }
}

/// What an error says, without the frame around it.
pub open spec fn described(error: BftErrorView) -> Seq<char> {
    match error {
        BftErrorView::CommitDiff(h) => "Commit Different at Height "@ + decimal(h as nat),
        BftErrorView::CommitIncorrect(h) => "Commit Differ from Proposal at Height "@ + decimal(
            h as nat,
        ),
        BftErrorView::CommitInvalid(h) => "No Proposal at Height "@ + decimal(h as nat),
        BftErrorView::MislaidCommit(h) => "Mislaid Commit of Height "@ + decimal(h as nat),
        BftErrorView::MultipleCommit(h) => "Multiple Commit at Height "@ + decimal(h as nat),
        BftErrorView::ShouldNotPrecommit(h, r) => "Do Precommit without +2/3 Prevotes at Height "@
            + decimal(h as nat) + ", Round "@ + decimal(r as nat),
        BftErrorView::AbnormalProposal(p) => "Abnormal Proposal Occur "@ + proposal_debug(p),
        BftErrorView::AbnormalVote(v) => "Abnormal Vote Occur "@ + vote_debug(v),
        BftErrorView::IllegalVote(v) => "Illegal Vote "@ + vote_debug(v),
        BftErrorView::GetNoVote(h, r, t) => "Get No "@ + vote_type_name(t) + " Vote at Height "@
            + decimal(h as nat) + ", Round "@ + decimal(r as nat),
        BftErrorView::PrecommitErr(h, r) => "Precommit Error at Height "@ + decimal(h as nat)
            + ", Round "@ + decimal(r as nat),
        BftErrorView::PrecommitDiffPoLC(h, r) => "Precommit Different From PoLC at Height "@
            + decimal(h as nat) + ", Round"@ + decimal(r as nat),
        BftErrorView::IllegalProposal(h, r) => "Illegal Proposal at Height "@ + decimal(h as nat)
            + ", Round "@ + decimal(r as nat),
        BftErrorView::NoCommit(h) => "No commit at height "@ + decimal(h as nat),
    }
}

/// The text of a decimal digit.
fn digit_text(value: u64) -> (text: &'static str)
    requires
        value < 10,
    ensures
        text@ == seq![digit(value as nat)],
{
    proof {
        reveal_strlit("0");
        reveal_strlit("1");
        reveal_strlit("2");
        reveal_strlit("3");
        reveal_strlit("4");
        reveal_strlit("5");
        reveal_strlit("6");
        reveal_strlit("7");
        reveal_strlit("8");
        reveal_strlit("9");
    }
    let text = if value == 0 {
        "0"
    } else if value == 1 {
        "1"
    } else if value == 2 {
        "2"
    } else if value == 3 {
        "3"
    } else if value == 4 {
        "4"
    } else if value == 5 {
        "5"
    } else if value == 6 {
        "6"
    } else if value == 7 {
        "7"
    } else if value == 8 {
        "8"
    } else {
        "9"
    };
    assert(text@ =~= seq![digit(value as nat)]);
    text
}

/// A number written in decimal digits.
pub fn decimal_text(number: u64) -> (text: String)
    ensures
        text@ == decimal(number as nat),
    decreases number,
{
    if number < 10 {
        digit_text(number).to_owned()
    } else {
        let mut text = decimal_text(number / 10);
        text.append(digit_text(number % 10));
        assert(text@ =~= decimal(number as nat));
        text
    }
}

/// Two texts in a row.
pub fn join_two(before: &str, detail: &str) -> (text: String)
    ensures
        text@ == before@ + detail@,
{
    let mut text = before.to_owned();
    text.append(detail);
    text
}

/// Three texts in a row.
pub fn join(before: &str, detail: &str, after: &str) -> (text: String)
    ensures
        text@ == before@ + detail@ + after@,
{
    let mut text = before.to_owned();
    text.append(detail);
    text.append(after);
    text
}

/// `before`, a height, a separator and a round, in a row.
fn at_height_and_round(before: &str, height: u64, between: &str, round: u64) -> (text: String)
    ensures
        text@ == before@ + decimal(height as nat) + between@ + decimal(round as nat),
{
    let mut text = join(before, decimal_text(height).as_str(), between);
    text.append(decimal_text(round).as_str());
    text
}

impl BftError {
    /// What the error says, without the frame around it.
    pub fn describe(&self) -> (text: String)
        ensures
            text@ == described(self@),
    {
        match self {
            BftError::CommitDiff(h) => join_two(
                "Commit Different at Height ",
                decimal_text(*h).as_str(),
            ),
            BftError::CommitIncorrect(h) => join_two(
                "Commit Differ from Proposal at Height ",
                decimal_text(*h).as_str(),
            ),
            BftError::CommitInvalid(h) => join_two(
                "No Proposal at Height ",
                decimal_text(*h).as_str(),
            ),
            BftError::MislaidCommit(h) => join_two(
                "Mislaid Commit of Height ",
                decimal_text(*h).as_str(),
            ),
            BftError::MultipleCommit(h) => join_two(
                "Multiple Commit at Height ",
                decimal_text(*h).as_str(),
            ),
            BftError::ShouldNotPrecommit(h, r) => at_height_and_round(
                "Do Precommit without +2/3 Prevotes at Height ",
                *h,
                ", Round ",
                *r,
            ),
            BftError::AbnormalProposal(p) => join_two(
                "Abnormal Proposal Occur ",
                debug_proposal(p).as_str(),
            ),
            BftError::AbnormalVote(v) => join_two("Abnormal Vote Occur ", debug_vote(v).as_str()),
            BftError::IllegalVote(v) => join_two("Illegal Vote ", debug_vote(v).as_str()),
            BftError::GetNoVote(h, r, t) => {
                let name = match t {
                    VoteType::Prevote => "Prevote",
                    VoteType::Precommit => "Precommit",
                };
                let before = join("Get No ", name, " Vote at Height ");
                at_height_and_round(before.as_str(), *h, ", Round ", *r)
            },
            BftError::PrecommitErr(h, r) => at_height_and_round(
                "Precommit Error at Height ",
                *h,
                ", Round ",
                *r,
            ),
            BftError::PrecommitDiffPoLC(h, r) => at_height_and_round(
                "Precommit Different From PoLC at Height ",
                *h,
                ", Round",
                *r,
            ),
            BftError::IllegalProposal(h, r) => at_height_and_round(
                "Illegal Proposal at Height ",
                *h,
                ", Round ",
                *r,
            ),
            BftError::NoCommit(h) => join_two("No commit at height ", decimal_text(*h).as_str()),
        }
    }

    /// The error as a line of text.
    pub fn to_string(&self) -> (text: String)
        ensures
            text@ == "BFT Error ("@ + described(self@) + ")!"@,
    {
        join("BFT Error (", self.describe().as_str(), ")!")
    }
}

impl FrameError {
    /// The error as a line of text.
    pub fn to_string(&self) -> (text: String)
        ensures
            text@ == "Frame Error (SQLite Error "@ + decimal(self->SQLiteErr_0 as nat) + ")I"@,
    {
        match self {
            FrameError::SQLiteErr(code) => join(
                "Frame Error (SQLite Error ",
                decimal_text(*code as u64).as_str(),
                ")I",
            ),
        }
    }
}

} // verus!
