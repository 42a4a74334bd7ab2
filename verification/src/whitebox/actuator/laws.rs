//! What holds of the steps of a test run.

use crate::error::BftErrorView;
use crate::whitebox::actuator::model::{ActuatorView, Phase, Progress, POLC_FLOOR};
use crate::whitebox::collection::vote_cache::{
    content_votes, lemma_content_votes_push, lemma_step_votes_add, lemma_step_votes_push,
    lemma_step_votes_uniform, polc, step_votes, tally,
};
use crate::whitebox::correctness::test_case::{uniform, BYZANTINE, NORMAL};
use crate::whitebox::quorum::supermajority;
use crate::whitebox::types::{
    CommitView, FeedView, FrameRecvView, FrameSendView, VoteType, VoteView,
};
use vstd::prelude::*;

verus! {

/// To go through the prevote counts changes nothing but the lock and the
/// content worked on, and keeps the state valid.
pub proof fn lemma_prevotes_scanned(
    state: ActuatorView,
    counts: Seq<(Seq<u8>, nat)>,
    from: int,
    clean: bool,
)
    ensures
        ({
            let after = state.prevotes_scanned(counts, from, clean).0;
            &&& after == (ActuatorView {
                proposal: after.proposal,
                lock_round: after.lock_round,
                lock_votes: after.lock_votes,
                lock_proposal: after.lock_proposal,
                ..state
            })
            &&& state.valid() ==> after.valid()
        }),
    decreases counts.len() - from,
{
    if 0 <= from < counts.len() {
        if supermajority(counts[from].1 as int, state.authority_list.len() as int) {
            let next = if counts[from].0.len() > 0 {
                state.with_polc(counts[from].0)
            } else {
                state.without_polc()
            };
            lemma_prevotes_scanned(next, counts, from + 1, false);
        } else {
            lemma_prevotes_scanned(state, counts, from + 1, clean);
        }
    }
}

/// To hold a precommit against the prevote counts changes nothing but the
/// proof of the lock.
pub proof fn lemma_precommits_scanned(
    state: ActuatorView,
    counts: Seq<(Seq<u8>, nat)>,
    from: int,
    content: Seq<u8>,
    evidence: Seq<VoteView>,
)
    ensures
        ({
            let after = state.precommits_scanned(counts, from, content, evidence).0;
            after == ActuatorView { lock_votes: after.lock_votes, ..state }
        }),
    decreases counts.len() - from,
{
    if 0 <= from < counts.len() {
        if supermajority(counts[from].1 as int, state.authority_list.len() as int) {
            if counts[from].0 == content && evidence.len() >= POLC_FLOOR {
                lemma_precommits_scanned(
                    ActuatorView { lock_votes: evidence, ..state },
                    counts,
                    from + 1,
                    content,
                    evidence,
                );
            }
        } else {
            lemma_precommits_scanned(state, counts, from + 1, content, evidence);
        }
    }
}

/// Among four validators or more, a content with a supermajority of the
/// prevotes of a round has [`POLC_FLOOR`] prevotes at least: the check of a
/// precommit never finds the proof of the lock too small.
pub proof fn lemma_polc_never_too_small(
    state: ActuatorView,
    step: Seq<VoteView>,
    from: int,
    content: Seq<u8>,
)
    requires
        state.authority_list.len() >= 4,
        0 <= from,
    ensures
        state.precommits_scanned(tally(step), from, content, content_votes(step, content)).1
            != Err::<(), BftErrorView>(
            BftErrorView::PrecommitDiffPoLC(state.height, state.round),
        ),
    decreases tally(step).len() - from,
{
    let counts = tally(step);
    let evidence = content_votes(step, content);
    if from < counts.len() {
        if supermajority(counts[from].1 as int, state.authority_list.len() as int) {
            if counts[from].0 == content {
                assert(counts[from].1 == evidence.len());
                lemma_polc_never_too_small(
                    ActuatorView { lock_votes: evidence, ..state },
                    step,
                    from + 1,
                    content,
                );
            }
        } else {
            lemma_polc_never_too_small(state, step, from + 1, content);
        }
    }
}

/// Among four validators or more, the check of a precommit never fails for a
/// proof of the lock that is too small.
pub proof fn lemma_precommit_check_never_short(state: ActuatorView, msg: FrameRecvView)
    requires
        state.authority_list.len() >= 4,
    ensures
        state.precommit_checked(msg).1 != Err::<(), BftErrorView>(
            BftErrorView::PrecommitDiffPoLC(state.height, state.round),
        ),
{
    let (taken, vote) = state.vote_taken(msg, VoteType::Precommit);
    if vote is Ok {
        let step = step_votes(taken.votes, state.height, state.round, VoteType::Prevote);
        lemma_polc_never_too_small(taken, step, 0, vote->Ok_0.proposal);
    }
}

/// A check of a message of the node changes neither the unit under way nor
/// the messages seen, the height or the round.
pub proof fn lemma_checked_frame(state: ActuatorView, msg: FrameRecvView)
    ensures
        ({
            let after = state.proposal_checked(msg).0;
            after.unit == state.unit && after.seen == state.seen && after.height == state.height
                && after.round == state.round && after.phase == state.phase
        }),
        ({
            let after = state.prevote_checked(msg).0;
            after.unit == state.unit && after.seen == state.seen && after.height == state.height
                && after.round == state.round && after.phase == state.phase
        }),
        ({
            let after = state.precommit_checked(msg).0;
            after.unit == state.unit && after.seen == state.seen && after.height == state.height
                && after.round == state.round && after.phase == state.phase
        }),
{
    let (taken, vote) = state.vote_taken(msg, VoteType::Prevote);
    if vote is Ok {
        let step = step_votes(taken.votes, state.height, state.round, VoteType::Prevote);
        lemma_prevotes_scanned(taken, tally(step), 0, true);
    }
    let (taken, vote) = state.vote_taken(msg, VoteType::Precommit);
    if vote is Ok {
        let step = step_votes(taken.votes, state.height, state.round, VoteType::Prevote);
        lemma_precommits_scanned(
            taken,
            tally(step),
            0,
            vote->Ok_0.proposal,
            polc(taken.votes, state.height, state.round, VoteType::Prevote, vote->Ok_0.proposal),
        );
    }
}

/// A commit where none may be there fails, and advances neither the round
/// nor the height, whatever they are.
pub proof fn lemma_commit_where_none_may_be(state: ActuatorView, commit: CommitView)
    requires
        state.phase == Phase::NoCommit,
    ensures
        state.can_conclude(Some(commit)),
        state.concluded(Some(commit)).1 == Err::<Progress, BftErrorView>(
            BftErrorView::CommitInvalid(state.height),
        ),
        state.concluded(Some(commit)).0 == state.awaiting(Phase::Idle),
{
}

/// Lock carry-over: rounds that go by keep a lock and the content locked on,
/// and whatever candidate is at hand afterwards, the content locked on is
/// what is fed to the node or proposed in the name of another validator, and
/// what the validators that behave normally vote for.
pub proof fn lemma_lock_carry_over(
    state: ActuatorView,
    content: Seq<u8>,
    rounds: nat,
    candidate: Seq<u8>,
    auth_index: int,
)
    requires
        state.lock_proposal == Some(content),
    ensures
        ({
            let later = state.rounds_on(rounds);
            &&& later.lock_proposal == Some(content)
            &&& later.lock_round == state.lock_round
            &&& later.lock_votes == state.lock_votes
            &&& rounds > 0 ==> later.proposal == content
            &&& later.feed(candidate).proposal == content
            &&& later.proposal_of(auth_index, candidate).content == content
            &&& later.proposal_of(auth_index, candidate).lock_round == state.lock_round
            &&& later.proposed(auth_index, candidate).proposal == content
            &&& later.stance() == content
            &&& later.fed(candidate).sent.last() == FrameSendView::Feed(
                FeedView { height: later.height, proposal: content },
            )
            &&& later.proposed(auth_index, candidate).sent.last() matches FrameSendView::Proposal(
                proposal,
            ) && proposal.content == content
        }),
    decreases rounds,
{
    if rounds > 0 {
        lemma_lock_carry_over(state, content, (rounds - 1) as nat, candidate, auth_index);
    }
}

/// A round goes by with the sentinel for it, and after a check that the node
/// did not commit: both are the step that [`lemma_lock_carry_over`] speaks of.
pub proof fn lemma_round_advances(state: ActuatorView, proposer: usize)
    ensures
        state.started(uniform(7), proposer).0 == (ActuatorView {
            unit: uniform(7),
            phase: Phase::Idle,
            ..state.rounds_on(1)
        }),
        state.phase == Phase::NoCommit ==> state.concluded(None).0 == state.rounds_on(1).awaiting(
            Phase::Idle,
        ),
{
    assert(state.rounds_on(1) == state.rounds_on(0).next_round()) by {
        reveal_with_fuel(ActuatorView::rounds_on, 2);
    }
    assert(uniform(7)[0] != uniform(8)[0]);
}

/// Deduplication: a message of the node that is delivered again changes
/// nothing, whatever the first delivery led to. It is counted once.
pub proof fn lemma_redelivery(state: ActuatorView, msg: FrameRecvView)
    ensures
        ({
            let once = state.delivered(msg).0;
            &&& once.delivered(msg).0 == once
            &&& once.delivered(msg).1 == Ok::<Progress, BftErrorView>(once.pending())
            &&& state.seen.contains(msg) ==> once == state
        }),
{
    if state.awaits_message() && !state.seen.contains(msg) {
        let noted = ActuatorView { seen: state.seen.push(msg), ..state };
        assert(noted.seen[state.seen.len() as int] == msg);
        assert(noted.seen.contains(msg));
        lemma_checked_frame(noted, msg);
    }
}

impl ActuatorView {
    /// The state after the node was asked for a message once for each of
    /// `msgs`, gave them in their order, and each was delivered.
    pub open spec fn polled(self, msgs: Seq<FrameRecvView>) -> Self
        decreases msgs.len(),
    {
        if msgs.len() == 0 {
            self
        } else {
            self.polled(msgs.drop_last()).having_heard(msgs.last()).delivered(msgs.last()).0
        }
    }
}

/// Replays are absorbed: while a message is waited for, messages that were
/// all seen before at this height change nothing, however many they are,
/// but the record of what was taken from the node. The message that follows
/// them is delivered as if they had not come.
pub proof fn lemma_replays_absorbed(
    state: ActuatorView,
    replays: Seq<FrameRecvView>,
    msg: FrameRecvView,
)
    requires
        state.awaits_message(),
        forall|i: int| 0 <= i < replays.len() ==> state.seen.contains(#[trigger] replays[i]),
    ensures
        state.polled(replays) == (ActuatorView { heard: state.heard + replays, ..state }),
        state.polled(replays.push(msg)) == (ActuatorView {
            heard: state.heard + replays,
            ..state
        }).having_heard(msg).delivered(msg).0,
        state.polled(replays.push(msg)).heard.len() == state.heard.len() + replays.len() + 1,
    decreases replays.len(),
{
    if replays.len() == 0 {
        assert(state.heard + replays =~= state.heard);
    } else {
        let earlier = replays.drop_last();
        let last = replays.last();
        assert forall|i: int| 0 <= i < earlier.len() implies state.seen.contains(
            #[trigger] earlier[i],
        ) by {
            assert(earlier[i] == replays[i]);
        }
        lemma_replays_absorbed(state, earlier, last);
        assert(earlier.push(last) =~= replays);
        assert(state.seen.contains(replays[replays.len() - 1]));
        assert((state.heard + earlier).push(last) =~= state.heard + replays);
    }
    let absorbed = ActuatorView { heard: state.heard + replays, ..state };
    assert(replays.push(msg).drop_last() =~= replays);
    lemma_delivery_keeps_heard(absorbed.having_heard(msg), msg);
}

/// A delivery adds nothing to the record of what was taken from the node.
pub proof fn lemma_delivery_keeps_heard(state: ActuatorView, msg: FrameRecvView)
    ensures
        state.delivered(msg).0.heard == state.heard,
{
    if state.awaits_message() && !state.seen.contains(msg) {
        let noted = ActuatorView { seen: state.seen.push(msg), ..state };
        let (taken, vote) = noted.vote_taken(msg, VoteType::Prevote);
        if vote is Ok {
            let step = step_votes(taken.votes, state.height, state.round, VoteType::Prevote);
            lemma_prevotes_scanned(taken, tally(step), 0, true);
        }
        let (taken, vote) = noted.vote_taken(msg, VoteType::Precommit);
        if vote is Ok {
            let step = step_votes(taken.votes, state.height, state.round, VoteType::Prevote);
            lemma_precommits_scanned(
                taken,
                tally(step),
                0,
                vote->Ok_0.proposal,
                polc(
                    taken.votes,
                    state.height,
                    state.round,
                    VoteType::Prevote,
                    vote->Ok_0.proposal,
                ),
            );
        }
    }
}

/// Whether two of three codes are Byzantine and the third is normal.
pub open spec fn two_byzantine(codes: Seq<u8>) -> bool {
    &&& codes.len() == 3
    &&& (codes[0] == NORMAL && codes[1] == BYZANTINE && codes[2] == BYZANTINE) || (codes[0]
        == BYZANTINE && codes[1] == NORMAL && codes[2] == BYZANTINE) || (codes[0] == BYZANTINE
        && codes[1] == BYZANTINE && codes[2] == NORMAL)
}

/// With two Byzantine validators no quorum is in reach: where two of the
/// three others vote Byzantine at a step that has no vote yet, no content
/// has more than two votes of the step once the node has voted, whatever it
/// votes for. That is fewer than a commit needs.
pub proof fn lemma_two_byzantine_no_quorum(
    state: ActuatorView,
    codes: Seq<u8>,
    vote_type: VoteType,
    vote: VoteView,
    content: Seq<u8>,
)
    requires
        state.valid(),
        two_byzantine(codes),
        !state.denylisted(state.stance()),
        step_votes(state.votes, state.height, state.round, vote_type).len() == 0,
    ensures
        polc(
            state.voted(codes, vote_type).votes.push(vote),
            state.height,
            state.round,
            vote_type,
            content,
        ).len() <= 2,
        polc(
            state.voted(codes, vote_type).votes.push(vote),
            state.height,
            state.round,
            vote_type,
            content,
        ).len() < POLC_FLOOR,
        !supermajority(
            polc(
                state.voted(codes, vote_type).votes.push(vote),
                state.height,
                state.round,
                vote_type,
                content,
            ).len() as int,
            4,
        ),
{
    reveal_with_fuel(ActuatorView::casts, 4);
    let casts = state.casts(codes, vote_type, 3);
    let first = state.cast(0, codes[0], vote_type)->0;
    let second = state.cast(1, codes[1], vote_type)->0;
    let third = state.cast(2, codes[2], vote_type)->0;
    let none = Seq::<VoteView>::empty();
    assert(casts == none.push(first).push(second).push(third));
    assert(uniform(0)[0] == 0 && uniform(1)[0] == 1 && uniform(2)[0] == 2);
    assert(state.byzantine[0] == uniform(0) && state.byzantine[1] == uniform(1)
        && state.byzantine[2] == uniform(2));
    assert(state.byzantine.contains(state.byzantine[0]) && state.byzantine.contains(
        state.byzantine[1],
    ) && state.byzantine.contains(state.byzantine[2]));
    assert(first.proposal != second.proposal && first.proposal != third.proposal
        && second.proposal != third.proposal);
    let all = state.voted(codes, vote_type).votes;
    assert(all == state.votes + casts);
    lemma_step_votes_add(state.votes, casts, state.height, state.round, vote_type);
    lemma_step_votes_uniform(casts, state.height, state.round, vote_type);
    let step = step_votes(all, state.height, state.round, vote_type);
    assert(step =~= casts);
    lemma_step_votes_push(all, vote, state.height, state.round, vote_type);
    lemma_content_votes_push(none, first, content);
    lemma_content_votes_push(none.push(first), second, content);
    lemma_content_votes_push(none.push(first).push(second), third, content);
    assert(content_votes(casts, content).len() <= 1);
    lemma_content_votes_push(casts, vote, content);
}

/// Height-advance reset: after a commit that was found right, the height is
/// one higher, the round is 0, and no lock, no vote and no message seen is
/// left. The commit was right: among other things, [`POLC_FLOOR`] precommits
/// of the round at least were recorded for its content.
pub proof fn lemma_height_advance(state: ActuatorView, commit: CommitView)
    requires
        state.phase == Phase::Commit,
        state.height < u64::MAX,
        state.concluded(Some(commit)).1 is Ok,
    ensures
        ({
            let next = state.concluded(Some(commit)).0;
            &&& next.height == state.height + 1
            &&& next.round == 0
            &&& next.seen == Seq::<FrameRecvView>::empty()
            &&& next.votes == Seq::<VoteView>::empty()
            &&& next.lock_round is None
            &&& next.lock_proposal is None
            &&& next.lock_votes == Seq::<VoteView>::empty()
            &&& next.proposal == Seq::<u8>::empty()
            &&& next.phase == Phase::Idle
            &&& state.commit_correct(commit.result)
            &&& polc(
                state.votes,
                state.height,
                state.round,
                VoteType::Precommit,
                commit.result,
            ).len() >= POLC_FLOOR
        }),
{
}

/// The height never falls: no step lowers it, and only a commit that was
/// found right raises it.
pub proof fn lemma_height_never_falls(
    state: ActuatorView,
    unit: Seq<u8>,
    proposer: usize,
    candidate: Seq<u8>,
    msg: FrameRecvView,
    commit: Option<CommitView>,
)
    requires
        state.height < u64::MAX,
    ensures
        state.begun().height == state.height + 1,
        state.started(unit, proposer).0.height == state.height,
        state.content_offered(candidate).height == state.height,
        state.delivered(msg).0.height == state.height,
        state.concluded(commit).0.height == if state.phase == Phase::Commit && state.concluded(
            commit,
        ).1 is Ok {
            (state.height + 1) as u64
        } else {
            state.height
        },
{
    if state.awaits_message() && !state.seen.contains(msg) {
        lemma_checked_frame(ActuatorView { seen: state.seen.push(msg), ..state }, msg);
    }
}

/// A content that the framework makes up is never denylisted: what is fed
/// or proposed without a lock is a candidate that is neither on the
/// denylist nor empty.
pub proof fn lemma_content_not_denylisted(state: ActuatorView, candidate: Seq<u8>)
    requires
        state.phase == Phase::Content,
        state.lock_proposal is None,
        state.content_offered(candidate) != state,
    ensures
        !state.denylisted(candidate),
        candidate.len() > 0,
        state.offered(candidate) == candidate,
{
}

} // verus!
