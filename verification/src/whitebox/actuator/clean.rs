//! Rounds without a fault: what a run comes to in which every validator
//! votes normally and the node answers well.

use crate::error::BftErrorView;
use crate::whitebox::actuator::model::{ActuatorView, Phase, Progress};
use crate::whitebox::collection::proposal_cache::{
    lemma_add_keeps_others, lemma_add_then_get, lemma_touch_keeps_all, registry_added,
    registry_get, registry_wf,
};
use crate::whitebox::collection::util::MsgView;
use crate::whitebox::collection::vote_cache::{
    in_step, lemma_one_content, lemma_step_votes_add, lemma_step_votes_uniform, polc,
    step_votes, tally,
};
use crate::whitebox::correctness::test_case::{uniform, NORMAL};
use crate::whitebox::types::{CommitView, FrameRecvView, ProposalView, VoteType, VoteView};
use vstd::prelude::*;

verus! {

/// What the node gives in one round: its proposal, should it be the one to
/// propose, its two votes, and its commit.
pub struct Answers {
    /// The proposal that the node makes of the content fed to it.
    pub proposal: ProposalView,
    /// The prevote of the node.
    pub prevote: VoteView,
    /// The precommit of the node.
    pub precommit: VoteView,
    /// The commit of the node.
    pub commit: CommitView,
}

/// Whether the node answers well in a round on `content`: it proposes the
/// content for the round without a lock, votes for it at both steps, and
/// commits it.
pub open spec fn answers_well(height: u64, round: u64, content: Seq<u8>, answers: Answers) -> bool {
    &&& answers.proposal.height == height
    &&& answers.proposal.round == round
    &&& answers.proposal.content == content
    &&& answers.proposal.lock_round is None
    &&& in_step(answers.prevote, height, round, VoteType::Prevote)
    &&& answers.prevote.proposal == content
    &&& in_step(answers.precommit, height, round, VoteType::Precommit)
    &&& answers.precommit.proposal == content
    &&& answers.commit.result == content
}

/// Whether the registry holds nothing for the heights from `height` on.
pub open spec fn free_from(state: ActuatorView, height: int) -> bool {
    forall|h: u64, r: u64| h >= height ==> #[trigger] registry_get(state.proposals, h, r) is None
}

/// Whether a state is that of four validators at the start of a height:
/// round 0, no unit under way, no lock, no vote, no message seen, and no
/// proposal registered for this height or a later one.
pub open spec fn fresh(state: ActuatorView) -> bool {
    &&& state.valid()
    &&& state.authority_list.len() == 4
    &&& state.phase == Phase::Idle
    &&& state.round == 0
    &&& state.lock_round is None
    &&& state.lock_proposal is None
    &&& state.votes == Seq::<VoteView>::empty()
    &&& state.seen == Seq::<FrameRecvView>::empty()
    &&& free_from(state, state.height as int)
}

/// Whether a content can be made up for a round: not denylisted, not empty.
pub open spec fn made_up(state: ActuatorView, content: Seq<u8>) -> bool {
    !state.denylisted(content) && content.len() > 0
}

/// What stays as it is through a round.
pub open spec fn same_round(state: ActuatorView, origin: ActuatorView) -> bool {
    &&& state.valid()
    &&& state.authority_list == origin.authority_list
    &&& state.byzantine == origin.byzantine
    &&& state.sleep_ms == origin.sleep_ms
    &&& state.height == origin.height
    &&& state.round == origin.round
    &&& free_from(state, origin.height + 1)
}

/// Whether the votes from the place `from` up to `to` are votes of the step
/// for the content.
pub open spec fn votes_for(
    votes: Seq<VoteView>,
    from: int,
    to: int,
    origin: ActuatorView,
    vote_type: VoteType,
    content: Seq<u8>,
) -> bool {
    forall|i: int|
        from <= i < to ==> in_step(#[trigger] votes[i], origin.height, origin.round, vote_type)
            && votes[i].proposal == content
}

/// Whether the registry holds a proposal of the content for the round.
pub open spec fn registered(state: ActuatorView, origin: ActuatorView, content: Seq<u8>) -> bool {
    registry_get(state.proposals, origin.height, origin.round) matches Some(proposal)
        && proposal.content == content
}

/// The state after the proposal of a round and the prevotes of the others:
/// the prevote of the node is waited for.
pub open spec fn prevoting(state: ActuatorView, origin: ActuatorView, content: Seq<u8>) -> bool {
    &&& same_round(state, origin)
    &&& state.phase == Phase::Prevote
    &&& state.unit == uniform(NORMAL)
    &&& state.proposal == content
    &&& state.lock_round is None
    &&& state.lock_proposal is None
    &&& state.votes.len() == 3
    &&& votes_for(state.votes, 0, 3, origin, VoteType::Prevote, content)
    &&& forall|i: int| 0 <= i < state.seen.len() ==> #[trigger] state.seen[i] is Proposal
    &&& registered(state, origin, content)
}

/// The state after the prevote of the node and the precommits of the
/// others: the content is locked on, and the precommit of the node is
/// waited for.
pub open spec fn precommitting(
    state: ActuatorView,
    origin: ActuatorView,
    content: Seq<u8>,
) -> bool {
    &&& same_round(state, origin)
    &&& state.phase == Phase::Precommit
    &&& state.proposal == content
    &&& state.lock_round == Some(origin.round)
    &&& state.lock_proposal == Some(content)
    &&& state.votes.len() == 7
    &&& votes_for(state.votes, 0, 4, origin, VoteType::Prevote, content)
    &&& votes_for(state.votes, 4, 7, origin, VoteType::Precommit, content)
    &&& forall|i: int|
        0 <= i < state.seen.len() ==> (#[trigger] state.seen[i] matches FrameRecvView::Vote(vote)
            ==> vote.vote_type == VoteType::Prevote)
    &&& registered(state, origin, content)
}

/// The state after the precommit of the node: the round is done with four
/// votes for the content at each step.
pub open spec fn voted_out(state: ActuatorView, origin: ActuatorView, content: Seq<u8>) -> bool {
    &&& same_round(state, origin)
    &&& state.phase == Phase::Idle
    &&& state.proposal == content
    &&& state.lock_round == Some(origin.round)
    &&& state.lock_proposal == Some(content)
    &&& state.votes.len() == 8
    &&& votes_for(state.votes, 0, 4, origin, VoteType::Prevote, content)
    &&& votes_for(state.votes, 4, 8, origin, VoteType::Precommit, content)
    &&& registered(state, origin, content)
}

/// The state in which the prevote of the node is waited for in a round: the
/// unit began, the content was taken, and, where the node proposes, its
/// proposal was delivered.
pub open spec fn proposal_step(
    state: ActuatorView,
    proposer: usize,
    content: Seq<u8>,
    answers: Answers,
) -> (ActuatorView, Result<Progress, BftErrorView>) {
    let offered = state.started(uniform(NORMAL), proposer).0.content_offered(content);
    if proposer == 0 {
        offered.delivered(FrameRecvView::Proposal(answers.proposal))
    } else {
        (offered, Ok(Progress::Pending(0)))
    }
}

/// The three votes cast under normal codes are votes of the step for the
/// content that the normal stance is.
pub proof fn lemma_normal_casts(state: ActuatorView, codes: Seq<u8>, vote_type: VoteType)
    requires
        codes.len() == 3,
        codes[0] == NORMAL,
        codes[1] == NORMAL,
        codes[2] == NORMAL,
    ensures
        state.voted(codes, vote_type).votes.len() == state.votes.len() + 3,
        forall|i: int|
            0 <= i < state.votes.len() ==> state.voted(codes, vote_type).votes[i]
                == state.votes[i],
        votes_for(
            state.voted(codes, vote_type).votes,
            state.votes.len() as int,
            state.votes.len() as int + 3,
            state,
            vote_type,
            state.stance(),
        ),
        state.voted(codes, vote_type) == (ActuatorView {
            votes: state.voted(codes, vote_type).votes,
            journal: state.voted(codes, vote_type).journal,
            sent: state.voted(codes, vote_type).sent,
            ..state
        }),
{
    reveal_with_fuel(ActuatorView::casts, 4);
    let casts = state.casts(codes, vote_type, 3);
    assert(casts.len() == 3);
    assert(state.cast(0, codes[0], vote_type) is Some);
    assert(state.cast(1, codes[1], vote_type) is Some);
    assert(state.cast(2, codes[2], vote_type) is Some);
}

/// The proposal of a round without a fault: the unit begins, the content is
/// taken, the proposal of the node is accepted where it proposes, and the
/// prevotes of the others follow.
pub proof fn lemma_clean_proposal(
    state: ActuatorView,
    proposer: usize,
    content: Seq<u8>,
    answers: Answers,
)
    requires
        fresh(state),
        proposer < 4,
        made_up(state, content),
        answers_well(state.height, state.round, content, answers),
    ensures
        proposal_step(state, proposer, content, answers).1 == Ok::<Progress, BftErrorView>(
            Progress::Pending(0),
        ),
        prevoting(proposal_step(state, proposer, content, answers).0, state, content),
{
    let unit = uniform(NORMAL);
    assert(unit[0] == 1 && uniform(7)[0] == 7 && uniform(8)[0] == 8 && uniform(9)[0] == 9);
    let begun = state.started(unit, proposer).0;
    assert(begun == ActuatorView { unit, proposer, phase: Phase::Content, ..state });
    let codes = begun.prevote_codes();
    assert(codes.len() == 3 && codes[0] == NORMAL && codes[1] == NORMAL && codes[2] == NORMAL);
    let offered = begun.content_offered(content);
    assert(registry_get(state.proposals, state.height, state.round) is None);
    if proposer == 0 {
        let msg = FrameRecvView::Proposal(answers.proposal);
        assert(offered.phase == Phase::Proposal);
        assert(!offered.seen.contains(msg));
        let noted = ActuatorView { seen: offered.seen.push(msg), ..offered };
        let checked = noted.proposal_checked(msg).0;
        assert(noted.carries_lock(answers.proposal));
        lemma_clean_registered(state, answers.proposal);
        lemma_normal_casts(checked, codes, VoteType::Prevote);
        let after = checked.voted(codes, VoteType::Prevote).awaiting(Phase::Prevote);
        assert(after == proposal_step(state, proposer, content, answers).0);
        assert(after.seen.len() == 1 && after.seen[0] == msg);
    } else {
        let proposal = begun.proposal_of(proposer as int, content);
        lemma_clean_registered(state, proposal);
        let made = begun.proposed(proposer as int, content);
        lemma_normal_casts(made, codes, VoteType::Prevote);
    }
}

/// A proposal registered in a fresh state: its slot holds it, and the later
/// heights still hold nothing where it is of the height under test.
pub proof fn lemma_clean_registered(state: ActuatorView, proposal: ProposalView)
    requires
        state.valid(),
        free_from(state, state.height as int),
    ensures
        ({
            let after = ActuatorView {
                proposals: registry_added(state.proposals, proposal),
                ..state
            };
            &&& registry_wf(after.proposals)
            &&& proposal.height >= state.height ==> registry_get(
                after.proposals,
                proposal.height,
                proposal.round,
            ) == Some(proposal)
            &&& proposal.height <= state.height ==> free_from(after, state.height + 1)
        }),
{
    lemma_add_then_get(state.proposals, proposal);
    let added = registry_added(state.proposals, proposal);
    assert forall|h: u64, r: u64| h >= state.height + 1 && proposal.height
        <= state.height implies #[trigger] registry_get(added, h, r) is None by {
        lemma_add_keeps_others(state.proposals, proposal, h, r);
    }
}

/// The prevote of a round without a fault: the prevote of the node is
/// counted, the four prevotes lock the content, and the precommits of the
/// others follow.
pub proof fn lemma_clean_prevote(
    state: ActuatorView,
    origin: ActuatorView,
    content: Seq<u8>,
    vote: VoteView,
)
    requires
        prevoting(state, origin, content),
        origin.authority_list.len() == 4,
        made_up(origin, content),
        in_step(vote, origin.height, origin.round, VoteType::Prevote),
        vote.proposal == content,
    ensures
        state.delivered(FrameRecvView::Vote(vote)).1 == Ok::<Progress, BftErrorView>(
            Progress::Pending(0),
        ),
        precommitting(state.delivered(FrameRecvView::Vote(vote)).0, origin, content),
{
    let msg = FrameRecvView::Vote(vote);
    assert(!state.seen.contains(msg)) by {
        if state.seen.contains(msg) {
            let i = choose|i: int| 0 <= i < state.seen.len() && state.seen[i] == msg;
            assert(state.seen[i] is Proposal);
        }
    }
    let noted = ActuatorView { seen: state.seen.push(msg), ..state };
    let taken = noted.received(vote);
    assert(noted.vote_taken(msg, VoteType::Prevote) == (taken, Ok::<VoteView, BftErrorView>(vote)));
    let step = step_votes(taken.votes, origin.height, origin.round, VoteType::Prevote);
    assert(votes_for(taken.votes, 0, 4, origin, VoteType::Prevote, content)) by {
        assert forall|i: int| 0 <= i < 4 implies in_step(
            #[trigger] taken.votes[i],
            origin.height,
            origin.round,
            VoteType::Prevote,
        ) && taken.votes[i].proposal == content by {
            if i < 3 {
                assert(taken.votes[i] == state.votes[i]);
            }
        }
    }
    lemma_step_votes_uniform(taken.votes, origin.height, origin.round, VoteType::Prevote);
    assert(step == taken.votes);
    lemma_one_content(step, content);
    let counts = tally(step);
    assert(counts.len() == 1 && counts[0] == (content, 4nat));
    reveal_with_fuel(ActuatorView::prevotes_scanned, 3);
    let locked = taken.with_polc(content);
    assert(taken.prevotes_scanned(counts, 0, true) == (locked, false));
    assert(noted.prevote_checked(msg) == (locked, Ok::<(), BftErrorView>(())));
    let unit = uniform(NORMAL);
    let codes = state.precommit_codes();
    assert(codes.len() == 3 && codes[0] == NORMAL && codes[1] == NORMAL && codes[2] == NORMAL);
    lemma_normal_casts(locked, codes, VoteType::Precommit);
    let after = locked.voted(codes, VoteType::Precommit).awaiting(Phase::Precommit);
    assert(after == state.delivered(msg).0);
    assert(locked.stance() == content);
    assert(votes_for(after.votes, 0, 4, origin, VoteType::Prevote, content)) by {
        assert forall|i: int| 0 <= i < 4 implies in_step(
            #[trigger] after.votes[i],
            origin.height,
            origin.round,
            VoteType::Prevote,
        ) && after.votes[i].proposal == content by {
            assert(after.votes[i] == taken.votes[i]);
        }
    }
    assert forall|i: int| 0 <= i < after.seen.len() implies (#[trigger] after.seen[i]
        matches FrameRecvView::Vote(seen) ==> seen.vote_type == VoteType::Prevote) by {
        if i < state.seen.len() {
            assert(state.seen[i] is Proposal);
        }
    }
}

/// The precommit of a round without a fault: the precommit of the node is
/// counted and found to stand on the four prevotes for its content.
pub proof fn lemma_clean_precommit(
    state: ActuatorView,
    origin: ActuatorView,
    content: Seq<u8>,
    vote: VoteView,
)
    requires
        precommitting(state, origin, content),
        origin.authority_list.len() == 4,
        made_up(origin, content),
        in_step(vote, origin.height, origin.round, VoteType::Precommit),
        vote.proposal == content,
    ensures
        state.delivered(FrameRecvView::Vote(vote)).1 == Ok::<Progress, BftErrorView>(
            Progress::Finished,
        ),
        voted_out(state.delivered(FrameRecvView::Vote(vote)).0, origin, content),
{
    let msg = FrameRecvView::Vote(vote);
    assert(!state.seen.contains(msg)) by {
        if state.seen.contains(msg) {
            let i = choose|i: int| 0 <= i < state.seen.len() && state.seen[i] == msg;
            assert(state.seen[i] matches FrameRecvView::Vote(seen) ==> seen.vote_type
                == VoteType::Prevote);
        }
    }
    let noted = ActuatorView { seen: state.seen.push(msg), ..state };
    let taken = noted.received(vote);
    assert(noted.vote_taken(msg, VoteType::Precommit) == (
        taken,
        Ok::<VoteView, BftErrorView>(vote),
    ));
    let prevotes = taken.votes.subrange(0, 4);
    let precommits = taken.votes.subrange(4, 8);
    assert(taken.votes =~= prevotes + precommits);
    assert forall|i: int| 0 <= i < 4 implies in_step(
        #[trigger] prevotes[i],
        origin.height,
        origin.round,
        VoteType::Prevote,
    ) && prevotes[i].proposal == content by {
        assert(prevotes[i] == state.votes[i]);
    }
    assert forall|i: int| 0 <= i < 4 implies in_step(
        #[trigger] precommits[i],
        origin.height,
        origin.round,
        VoteType::Precommit,
    ) && precommits[i].proposal == content by {
        if i < 3 {
            assert(precommits[i] == state.votes[i + 4]);
        }
    }
    lemma_step_votes_add(prevotes, precommits, origin.height, origin.round, VoteType::Prevote);
    lemma_step_votes_uniform(prevotes, origin.height, origin.round, VoteType::Prevote);
    lemma_step_votes_uniform(precommits, origin.height, origin.round, VoteType::Prevote);
    let step = step_votes(taken.votes, origin.height, origin.round, VoteType::Prevote);
    assert(step =~= prevotes);
    lemma_one_content(step, content);
    let counts = tally(step);
    assert(counts.len() == 1 && counts[0] == (content, 4nat));
    let evidence = polc(taken.votes, origin.height, origin.round, VoteType::Prevote, content);
    assert(evidence == prevotes);
    reveal_with_fuel(ActuatorView::precommits_scanned, 3);
    let proved = ActuatorView { lock_votes: evidence, ..taken };
    assert(taken.precommits_scanned(counts, 0, content, evidence) == (
        proved,
        Ok::<(), BftErrorView>(()),
    ));
    assert(noted.precommit_checked(msg) == (proved, Ok::<(), BftErrorView>(())));
    let after = proved.awaiting(Phase::Idle);
    assert(after == state.delivered(msg).0);
    assert(votes_for(after.votes, 0, 4, origin, VoteType::Prevote, content)) by {
        assert forall|i: int| 0 <= i < 4 implies in_step(
            #[trigger] after.votes[i],
            origin.height,
            origin.round,
            VoteType::Prevote,
        ) && after.votes[i].proposal == content by {
            assert(after.votes[i] == prevotes[i]);
        }
    }
    assert(votes_for(after.votes, 4, 8, origin, VoteType::Precommit, content)) by {
        assert forall|i: int| 4 <= i < 8 implies in_step(
            #[trigger] after.votes[i],
            origin.height,
            origin.round,
            VoteType::Precommit,
        ) && after.votes[i].proposal == content by {
            assert(after.votes[i] == precommits[i - 4]);
        }
    }
}

/// The state after the commit of a round was asked for and looked at.
pub open spec fn commit_step(state: ActuatorView, commit: CommitView) -> (
    ActuatorView,
    Result<Progress, BftErrorView>,
) {
    state.started(uniform(8), 0).0.concluded(Some(commit))
}

/// The commit of a round without a fault: the commit of the content is
/// found right, and the next height begins fresh.
pub proof fn lemma_clean_commit(
    state: ActuatorView,
    origin: ActuatorView,
    content: Seq<u8>,
    commit: CommitView,
)
    requires
        voted_out(state, origin, content),
        origin.authority_list.len() == 4,
        origin.round == 0,
        origin.height < u64::MAX,
        made_up(origin, content),
        commit.result == content,
    ensures
        commit_step(state, commit).1 == Ok::<Progress, BftErrorView>(Progress::Finished),
        fresh(commit_step(state, commit).0),
        commit_step(state, commit).0.height == origin.height + 1,
        commit_step(state, commit).0.sleep_ms == origin.sleep_ms,
        commit_step(state, commit).0.byzantine == origin.byzantine,
{
    assert(uniform(8)[0] == 8 && uniform(7)[0] == 7);
    let asked = state.started(uniform(8), 0).0;
    assert(asked == ActuatorView { unit: uniform(8), phase: Phase::Commit, ..state });
    let noted = asked.recorded(MsgView::Commit(commit));
    let prevotes = noted.votes.subrange(0, 4);
    let precommits = noted.votes.subrange(4, 8);
    assert(noted.votes =~= prevotes + precommits);
    assert forall|i: int| 0 <= i < 4 implies !in_step(
        #[trigger] prevotes[i],
        origin.height,
        origin.round,
        VoteType::Precommit,
    ) by {
        assert(prevotes[i] == state.votes[i]);
    }
    assert forall|i: int| 0 <= i < 4 implies in_step(
        #[trigger] precommits[i],
        origin.height,
        origin.round,
        VoteType::Precommit,
    ) && precommits[i].proposal == content by {
        assert(precommits[i] == state.votes[i + 4]);
    }
    lemma_step_votes_add(prevotes, precommits, origin.height, origin.round, VoteType::Precommit);
    lemma_step_votes_uniform(prevotes, origin.height, origin.round, VoteType::Precommit);
    lemma_step_votes_uniform(precommits, origin.height, origin.round, VoteType::Precommit);
    let step = step_votes(noted.votes, origin.height, origin.round, VoteType::Precommit);
    assert(step =~= precommits);
    lemma_one_content(step, content);
    assert(polc(noted.votes, origin.height, origin.round, VoteType::Precommit, content).len() == 4);
    assert(noted.commit_correct(content));
    let checked = noted.commit_checked(content).0;
    lemma_touch_keeps_all(noted.proposals, origin.height, origin.round, 0, 0);
    let after = commit_step(state, commit).0;
    assert forall|h: u64, r: u64| h >= origin.height + 1 implies #[trigger] registry_get(
        after.proposals,
        h,
        r,
    ) is None by {
        lemma_touch_keeps_all(noted.proposals, origin.height, origin.round, h, r);
        assert(registry_get(state.proposals, h, r) is None);
    }
}

/// A round without a fault, from the unit of votes to the commit.
pub open spec fn clean_round(
    state: ActuatorView,
    proposer: usize,
    content: Seq<u8>,
    answers: Answers,
) -> ActuatorView {
    let proposed = proposal_step(state, proposer, content, answers).0;
    let prevoted = proposed.delivered(FrameRecvView::Vote(answers.prevote)).0;
    let precommitted = prevoted.delivered(FrameRecvView::Vote(answers.precommit)).0;
    commit_step(precommitted, answers.commit).0
}

/// A round without a fault ends in a commit: from a fresh state, whoever
/// proposes and whatever content is made up, every step against a node that
/// answers well is found right, and the state is fresh again at the next
/// height.
pub proof fn lemma_clean_round(
    state: ActuatorView,
    proposer: usize,
    content: Seq<u8>,
    answers: Answers,
)
    requires
        fresh(state),
        state.height < u64::MAX,
        proposer < 4,
        made_up(state, content),
        answers_well(state.height, state.round, content, answers),
    ensures
        ({
            let proposed = proposal_step(state, proposer, content, answers);
            let prevoted = proposed.0.delivered(FrameRecvView::Vote(answers.prevote));
            let precommitted = prevoted.0.delivered(FrameRecvView::Vote(answers.precommit));
            let committed = commit_step(precommitted.0, answers.commit);
            &&& proposed.1 is Ok
            &&& prevoted.1 is Ok
            &&& precommitted.1 == Ok::<Progress, BftErrorView>(Progress::Finished)
            &&& committed.1 == Ok::<Progress, BftErrorView>(Progress::Finished)
        }),
        fresh(clean_round(state, proposer, content, answers)),
        clean_round(state, proposer, content, answers).height == state.height + 1,
        clean_round(state, proposer, content, answers).byzantine == state.byzantine,
{
    lemma_clean_proposal(state, proposer, content, answers);
    let proposed = proposal_step(state, proposer, content, answers).0;
    lemma_clean_prevote(proposed, state, content, answers.prevote);
    let prevoted = proposed.delivered(FrameRecvView::Vote(answers.prevote)).0;
    lemma_clean_precommit(prevoted, state, content, answers.precommit);
    let precommitted = prevoted.delivered(FrameRecvView::Vote(answers.precommit)).0;
    lemma_clean_commit(precommitted, state, content, answers.commit);
}

/// The state after `rounds` rounds without a fault, the round at each place
/// with the proposer, the content and the answers given for that place.
pub open spec fn clean_run(
    state: ActuatorView,
    rounds: nat,
    proposers: spec_fn(nat) -> usize,
    contents: spec_fn(nat) -> Seq<u8>,
    answers: spec_fn(nat) -> Answers,
) -> ActuatorView
    decreases rounds,
{
    if rounds == 0 {
        state
    } else {
        let place = (rounds - 1) as nat;
        clean_round(
            clean_run(state, place, proposers, contents, answers),
            proposers(place),
            contents(place),
            answers(place),
        )
    }
}

/// A run without a fault commits in every round: after any number of rounds
/// in which every validator votes normally, each followed by the check that
/// the node committed, against a node that answers well, the height has
/// gone up by that number, and the state is fresh.
pub proof fn lemma_clean_run(
    state: ActuatorView,
    rounds: nat,
    proposers: spec_fn(nat) -> usize,
    contents: spec_fn(nat) -> Seq<u8>,
    answers: spec_fn(nat) -> Answers,
)
    requires
        fresh(state),
        state.height + rounds <= u64::MAX,
        forall|place: nat|
            place < rounds ==> {
                &&& #[trigger] proposers(place) < 4
                &&& made_up(state, contents(place))
                &&& answers_well((state.height + place) as u64, 0, contents(place), answers(place))
            },
    ensures
        fresh(clean_run(state, rounds, proposers, contents, answers)),
        clean_run(state, rounds, proposers, contents, answers).height == state.height + rounds,
        clean_run(state, rounds, proposers, contents, answers).byzantine == state.byzantine,
    decreases rounds,
{
    if rounds > 0 {
        let place = (rounds - 1) as nat;
        lemma_clean_run(state, place, proposers, contents, answers);
        let before = clean_run(state, place, proposers, contents, answers);
        assert(proposers(place) < 4);
        lemma_clean_round(before, proposers(place), contents(place), answers(place));
    }
}

} // verus!
