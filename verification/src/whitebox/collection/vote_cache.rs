//! The vote aggregator: every vote recorded, and the votes of one step with
//! their counts by content.
//!
//! The aggregator is modelled as the sequence of the votes recorded, in the
//! order in which they came. Nothing is deduplicated here: a vote recorded
//! twice counts twice.

use crate::whitebox::quorum::{lemma_supermajority_monotonic, supermajority};
use crate::whitebox::types::{bytes_clone, bytes_eq, vote_views, Vote, VoteType, VoteView};
use vstd::prelude::*;

verus! {

/// Whether a vote belongs to the step of a height, a round and a vote type.
pub open spec fn in_step(vote: VoteView, height: u64, round: u64, vote_type: VoteType) -> bool {
    vote.height == height && vote.round == round && vote.vote_type == vote_type
}

/// The votes of one step among `votes`, in their order.
pub open spec fn step_votes(
    votes: Seq<VoteView>,
    height: u64,
    round: u64,
    vote_type: VoteType,
) -> Seq<VoteView>
    decreases votes.len(),
{
    if votes.len() == 0 {
        Seq::empty()
    } else {
        let earlier = step_votes(votes.drop_last(), height, round, vote_type);
        if in_step(votes.last(), height, round, vote_type) {
            earlier.push(votes.last())
        } else {
            earlier
        }
    }
}

/// The votes for one content among `votes`, in their order.
pub open spec fn content_votes(votes: Seq<VoteView>, content: Seq<u8>) -> Seq<VoteView>
    decreases votes.len(),
{
    if votes.len() == 0 {
        Seq::empty()
    } else {
        let earlier = content_votes(votes.drop_last(), content);
        if votes.last().proposal == content {
            earlier.push(votes.last())
        } else {
            earlier
        }
    }
}

/// The votes of one step for one content among `votes`, in their order: what
/// may prove a lock.
pub open spec fn polc(
    votes: Seq<VoteView>,
    height: u64,
    round: u64,
    vote_type: VoteType,
    content: Seq<u8>,
) -> Seq<VoteView> {
    content_votes(step_votes(votes, height, round, vote_type), content)
}

/// The number of votes for one content among `votes`.
pub open spec fn content_count(votes: Seq<VoteView>, content: Seq<u8>) -> nat {
    content_votes(votes, content).len()
}

/// The contents voted for, each once, in the order of their first vote.
pub open spec fn contents(votes: Seq<VoteView>) -> Seq<Seq<u8>>
    decreases votes.len(),
{
    if votes.len() == 0 {
        Seq::empty()
    } else {
        let earlier = contents(votes.drop_last());
        if earlier.contains(votes.last().proposal) {
            earlier
        } else {
            earlier.push(votes.last().proposal)
        }
    }
}

/// The contents voted for with the number of votes for each, in the order of
/// their first vote.
pub open spec fn tally(votes: Seq<VoteView>) -> Seq<(Seq<u8>, nat)> {
    Seq::new(
        contents(votes).len(),
        |i: int| (contents(votes)[i], content_count(votes, contents(votes)[i])),
    )
}

/// The sum of the counts of the first `upto` entries of a tally.
pub open spec fn total(counts: Seq<(Seq<u8>, nat)>, upto: int) -> nat
    decreases upto,
{
    if upto <= 0 {
        0
    } else {
        total(counts, upto - 1) + counts[upto - 1].1
    }
}

/// What one more vote adds to the votes of a step.
pub proof fn lemma_step_votes_push(
    votes: Seq<VoteView>,
    vote: VoteView,
    height: u64,
    round: u64,
    vote_type: VoteType,
)
    ensures
        step_votes(votes.push(vote), height, round, vote_type) == if in_step(
            vote,
            height,
            round,
            vote_type,
        ) {
            step_votes(votes, height, round, vote_type).push(vote)
        } else {
            step_votes(votes, height, round, vote_type)
        },
{
    assert(votes.push(vote).drop_last() =~= votes);
}

/// What one more vote adds to the votes for a content.
pub proof fn lemma_content_votes_push(votes: Seq<VoteView>, vote: VoteView, content: Seq<u8>)
    ensures
        content_votes(votes.push(vote), content) == if vote.proposal == content {
            content_votes(votes, content).push(vote)
        } else {
            content_votes(votes, content)
        },
{
    assert(votes.push(vote).drop_last() =~= votes);
}

/// What one more vote adds to the contents voted for.
pub proof fn lemma_contents_push(votes: Seq<VoteView>, vote: VoteView)
    ensures
        contents(votes.push(vote)) == if contents(votes).contains(vote.proposal) {
            contents(votes)
        } else {
            contents(votes).push(vote.proposal)
        },
{
    assert(votes.push(vote).drop_last() =~= votes);
}

/// The contents voted for are those with at least one vote, and none of them
/// is listed twice.
pub proof fn lemma_contents(votes: Seq<VoteView>, content: Seq<u8>)
    ensures
        contents(votes).contains(content) <==> content_count(votes, content) > 0,
        contents(votes).no_duplicates(),
        content_count(votes, content) <= votes.len(),
    decreases votes.len(),
{
    if votes.len() > 0 {
        let earlier = votes.drop_last();
        lemma_contents(earlier, content);
        lemma_contents(earlier, votes.last().proposal);
        let listed = contents(earlier);
        if !listed.contains(votes.last().proposal) {
            let grown = listed.push(votes.last().proposal);
            assert(grown[listed.len() as int] == votes.last().proposal);
            if listed.contains(content) {
                let i = choose|i: int| 0 <= i < listed.len() && listed[i] == content;
                assert(grown[i] == content);
            }
        }
    }
}

/// The votes of a step are among the votes, and those for one content are
/// votes of that content.
pub proof fn lemma_polc_votes(
    votes: Seq<VoteView>,
    height: u64,
    round: u64,
    vote_type: VoteType,
    content: Seq<u8>,
    i: int,
)
    requires
        0 <= i < polc(votes, height, round, vote_type, content).len(),
    ensures
        in_step(polc(votes, height, round, vote_type, content)[i], height, round, vote_type),
        polc(votes, height, round, vote_type, content)[i].proposal == content,
        votes.contains(polc(votes, height, round, vote_type, content)[i]),
{
    let step = step_votes(votes, height, round, vote_type);
    lemma_content_votes_member(step, content, i);
    let j = choose|j: int| 0 <= j < step.len() && step[j] == content_votes(step, content)[i];
    lemma_step_votes_member(votes, height, round, vote_type, j);
}

/// Each of the votes of a step is a vote of that step, and one of the votes.
pub proof fn lemma_step_votes_member(
    votes: Seq<VoteView>,
    height: u64,
    round: u64,
    vote_type: VoteType,
    i: int,
)
    requires
        0 <= i < step_votes(votes, height, round, vote_type).len(),
    ensures
        in_step(step_votes(votes, height, round, vote_type)[i], height, round, vote_type),
        votes.contains(step_votes(votes, height, round, vote_type)[i]),
    decreases votes.len(),
{
    let earlier = step_votes(votes.drop_last(), height, round, vote_type);
    if i < earlier.len() {
        lemma_step_votes_member(votes.drop_last(), height, round, vote_type, i);
        let before = votes.drop_last();
        let j = choose|j: int| 0 <= j < before.len() && before[j] == earlier[i];
        assert(votes[j] == earlier[i]);
    } else {
        assert(votes[votes.len() - 1] == votes.last());
    }
}

/// Each of the votes for a content is a vote for it, and one of the votes.
pub proof fn lemma_content_votes_member(votes: Seq<VoteView>, content: Seq<u8>, i: int)
    requires
        0 <= i < content_votes(votes, content).len(),
    ensures
        content_votes(votes, content)[i].proposal == content,
        votes.contains(content_votes(votes, content)[i]),
    decreases votes.len(),
{
    let earlier = content_votes(votes.drop_last(), content);
    if i < earlier.len() {
        lemma_content_votes_member(votes.drop_last(), content, i);
        let before = votes.drop_last();
        let j = choose|j: int| 0 <= j < before.len() && before[j] == earlier[i];
        assert(votes[j] == earlier[i]);
    } else {
        assert(votes[votes.len() - 1] == votes.last());
    }
}

/// The votes of a step among two lists in a row are those among the first,
/// then those among the second.
pub proof fn lemma_step_votes_add(
    first: Seq<VoteView>,
    second: Seq<VoteView>,
    height: u64,
    round: u64,
    vote_type: VoteType,
)
    ensures
        step_votes(first + second, height, round, vote_type) == step_votes(
            first,
            height,
            round,
            vote_type,
        ) + step_votes(second, height, round, vote_type),
    decreases second.len(),
{
    if second.len() == 0 {
        assert(first + second =~= first);
        assert(step_votes(first, height, round, vote_type) + Seq::<VoteView>::empty()
            =~= step_votes(first, height, round, vote_type));
    } else {
        let earlier = second.drop_last();
        lemma_step_votes_add(first, earlier, height, round, vote_type);
        assert((first + second).drop_last() =~= first + earlier);
        assert((first + second).last() == second.last());
        let s1 = step_votes(first, height, round, vote_type);
        let s2 = step_votes(earlier, height, round, vote_type);
        assert((s1 + s2).push(second.last()) =~= s1 + s2.push(second.last()));
    }
}

/// Where all votes of a list are of a step, they are the votes of the step;
/// where none is, the step has no vote among them.
pub proof fn lemma_step_votes_uniform(
    votes: Seq<VoteView>,
    height: u64,
    round: u64,
    vote_type: VoteType,
)
    ensures
        (forall|i: int| 0 <= i < votes.len() ==> in_step(votes[i], height, round, vote_type))
            ==> step_votes(votes, height, round, vote_type) == votes,
        (forall|i: int| 0 <= i < votes.len() ==> !in_step(votes[i], height, round, vote_type))
            ==> step_votes(votes, height, round, vote_type) == Seq::<VoteView>::empty(),
    decreases votes.len(),
{
    if votes.len() > 0 {
        let earlier = votes.drop_last();
        lemma_step_votes_uniform(earlier, height, round, vote_type);
        assert(forall|i: int| 0 <= i < earlier.len() ==> earlier[i] == votes[i]);
        assert(earlier.push(votes.last()) =~= votes);
    }
}

/// Where all votes of a list are for one content, they are the votes for it,
/// and the tally holds that content alone, with their number.
pub proof fn lemma_one_content(votes: Seq<VoteView>, content: Seq<u8>)
    requires
        forall|i: int| 0 <= i < votes.len() ==> votes[i].proposal == content,
    ensures
        content_votes(votes, content) == votes,
        votes.len() > 0 ==> contents(votes) == seq![content],
        votes.len() > 0 ==> tally(votes) == seq![(content, votes.len())],
    decreases votes.len(),
{
    if votes.len() > 0 {
        let earlier = votes.drop_last();
        assert(forall|i: int| 0 <= i < earlier.len() ==> earlier[i] == votes[i]);
        lemma_one_content(earlier, content);
        assert(earlier.push(votes.last()) =~= votes);
        if earlier.len() > 0 {
            assert(contents(earlier)[0] == content);
            assert(contents(earlier).contains(content));
        } else {
            assert(contents(earlier) =~= Seq::<Seq<u8>>::empty());
            assert(!contents(earlier).contains(content));
        }
        assert(contents(votes) =~= seq![content]);
        assert(tally(votes) =~= seq![(content, votes.len())]);
    }
}

/// The votes of a step, taken from the votes of that step, are all of them.
pub proof fn lemma_step_votes_idempotent(
    votes: Seq<VoteView>,
    height: u64,
    round: u64,
    vote_type: VoteType,
)
    ensures
        step_votes(step_votes(votes, height, round, vote_type), height, round, vote_type)
            == step_votes(votes, height, round, vote_type),
    decreases votes.len(),
{
    if votes.len() > 0 {
        lemma_step_votes_idempotent(votes.drop_last(), height, round, vote_type);
        if in_step(votes.last(), height, round, vote_type) {
            lemma_step_votes_push(
                step_votes(votes.drop_last(), height, round, vote_type),
                votes.last(),
                height,
                round,
                vote_type,
            );
        }
    }
}

/// Monotonicity: one more vote adds one to the number of votes of its step and
/// to the number of votes for its content in that step. No other number
/// changes, and none goes down.
pub proof fn lemma_add_counts(
    votes: Seq<VoteView>,
    vote: VoteView,
    height: u64,
    round: u64,
    vote_type: VoteType,
    content: Seq<u8>,
)
    ensures
        step_votes(votes.push(vote), height, round, vote_type).len() == step_votes(
            votes,
            height,
            round,
            vote_type,
        ).len() + if in_step(vote, height, round, vote_type) {
            1int
        } else {
            0int
        },
        polc(votes.push(vote), height, round, vote_type, content).len() == polc(
            votes,
            height,
            round,
            vote_type,
            content,
        ).len() + if in_step(vote, height, round, vote_type) && vote.proposal == content {
            1int
        } else {
            0int
        },
        step_votes(votes.push(vote), height, round, vote_type).len() >= step_votes(
            votes,
            height,
            round,
            vote_type,
        ).len(),
        polc(votes.push(vote), height, round, vote_type, content).len() >= polc(
            votes,
            height,
            round,
            vote_type,
            content,
        ).len(),
{
    lemma_step_votes_push(votes, vote, height, round, vote_type);
    lemma_content_votes_push(step_votes(votes, height, round, vote_type), vote, content);
}

/// A quorum once reached stays: where the votes of a step for a content are a
/// supermajority, they still are after one more vote was recorded.
pub proof fn lemma_quorum_stays(
    votes: Seq<VoteView>,
    vote: VoteView,
    height: u64,
    round: u64,
    vote_type: VoteType,
    content: Seq<u8>,
    authorities: int,
)
    requires
        supermajority(polc(votes, height, round, vote_type, content).len() as int, authorities),
    ensures
        supermajority(
            polc(votes.push(vote), height, round, vote_type, content).len() as int,
            authorities,
        ),
{
    lemma_add_counts(votes, vote, height, round, vote_type, content);
    lemma_supermajority_monotonic(
        polc(votes, height, round, vote_type, content).len() as int,
        polc(votes.push(vote), height, round, vote_type, content).len() as int,
        authorities,
        authorities,
    );
}

/// Two tallies that agree but for one count, which is one higher in the
/// second, differ by one in their sum.
pub proof fn lemma_total_bump(
    before: Seq<(Seq<u8>, nat)>,
    after: Seq<(Seq<u8>, nat)>,
    upto: int,
    at: int,
)
    requires
        0 <= upto <= before.len(),
        upto <= after.len(),
        forall|j: int| 0 <= j < upto && j != at ==> after[j].1 == before[j].1,
        0 <= at < upto ==> after[at].1 == before[at].1 + 1,
    ensures
        total(after, upto) == total(before, upto) + if 0 <= at < upto {
            1int
        } else {
            0int
        },
    decreases upto,
{
    if upto > 0 {
        lemma_total_bump(before, after, upto - 1, at);
    }
}

/// The counts of a tally add up to the number of votes: every vote, a nil vote
/// too, is counted under its content and nowhere else.
pub proof fn lemma_tally_total(votes: Seq<VoteView>)
    ensures
        total(tally(votes), tally(votes).len() as int) == votes.len(),
    decreases votes.len(),
{
    if votes.len() > 0 {
        let earlier = votes.drop_last();
        let vote = votes.last();
        assert(earlier.push(vote) =~= votes);
        lemma_tally_total(earlier);
        lemma_contents_push(earlier, vote);
        lemma_contents(earlier, vote.proposal);
        let before = tally(earlier);
        let after = tally(votes);
        let n = before.len() as int;
        assert forall|j: int| 0 <= j < n implies after[j].1 == before[j].1 + if contents(
            earlier,
        )[j] == vote.proposal {
            1int
        } else {
            0int
        } by {
            lemma_content_votes_push(earlier, vote, contents(earlier)[j]);
        }
        if contents(earlier).contains(vote.proposal) {
            let at = choose|at: int| 0 <= at < n && contents(earlier)[at] == vote.proposal;
            lemma_total_bump(before, after, n, at);
        } else {
            lemma_total_bump(before, after, n, -1);
            lemma_content_votes_push(earlier, vote, vote.proposal);
            assert(after[n].1 == 1);
        }
    }
}

/// The contents of a tally with their counts, as mathematical values.
pub open spec fn tally_views(counts: Seq<(Vec<u8>, usize)>) -> Seq<(Seq<u8>, nat)> {
    Seq::new(counts.len(), |i: int| (counts[i].0@, counts[i].1 as nat))
}

/// The votes of one step, with their number in all and by content.
#[derive(Debug)]
pub struct VoteSet {
    /// The contents voted for with the number of votes for each, in the order
    /// of their first vote. A nil vote counts under the empty content.
    pub votes_by_proposal: Vec<(Vec<u8>, usize)>,
    /// The number of votes.
    pub count: usize,
    /// The votes, in the order in which they came.
    pub votes: Vec<Vote>,
}

impl VoteSet {
    /// The votes, in the order in which they came.
    pub open spec fn view(&self) -> Seq<VoteView> {
        vote_views(self.votes@)
    }

    /// The numbers are those of the votes.
    pub open spec fn wf(&self) -> bool {
        &&& self.count == self.votes@.len()
        &&& tally_views(self.votes_by_proposal@) == tally(self@)
    }

    /// The number of votes is the sum of the numbers by content.
    pub proof fn lemma_count_is_total(&self)
        requires
            self.wf(),
        ensures
            total(
                tally_views(self.votes_by_proposal@),
                self.votes_by_proposal@.len() as int,
            ) == self.count,
    {
        lemma_tally_total(self@);
    }

    /// A set without votes.
    pub fn new() -> (set: Self)
        ensures
            set.wf(),
            set@ == Seq::<VoteView>::empty(),
    {
        let set = VoteSet { votes_by_proposal: Vec::new(), count: 0, votes: Vec::new() };
        assert(set@ =~= Seq::<VoteView>::empty());
        assert(tally_views(set.votes_by_proposal@) =~= tally(set@));
        set
    }

    /// Counts one more vote, under its content and in all.
    pub fn add(&mut self, vote: Vote)
        requires
            old(self).wf(),
        ensures
            final(self).wf(),
            final(self)@ == old(self)@.push(vote@),
    {
        let ghost before = self@;
        let ghost cast = vote@;
        let ghost listed = contents(before);
        let content = bytes_clone(&vote.proposal);
        self.votes.push(vote);
        self.count = self.votes.len();
        assert(self@ =~= before.push(cast));
        proof {
            lemma_contents_push(before, cast);
            lemma_contents(before, cast.proposal);
            assert forall|j: int| 0 <= j < listed.len() implies content_count(
                before.push(cast),
                listed[j],
            ) == content_count(before, listed[j]) + if listed[j] == cast.proposal {
                1int
            } else {
                0int
            } && content_count(before, listed[j]) <= before.len() by {
                lemma_content_votes_push(before, cast, listed[j]);
                lemma_contents(before, listed[j]);
            }
            lemma_content_votes_push(before, cast, cast.proposal);
        }
        let mut i: usize = 0;
        let mut found = false;
        while i < self.votes_by_proposal.len() && !found
            invariant
                i <= self.votes_by_proposal@.len(),
                listed == contents(before),
                content@ == cast.proposal,
                tally_views(self.votes_by_proposal@) == tally(before),
                forall|j: int| 0 <= j < i ==> listed[j] != content@,
                found ==> i < self.votes_by_proposal@.len() && listed[i as int] == content@,
            decreases
                    self.votes_by_proposal@.len() - i,
                    if found {
                        0int
                    } else {
                        1int
                    },
        {
            assert(tally(before).len() == listed.len());
            assert(tally_views(self.votes_by_proposal@)[i as int] == tally(before)[i as int]);
            assert(self.votes_by_proposal@[i as int].0@ == listed[i as int]);
            if bytes_eq(&self.votes_by_proposal[i].0, &content) {
                found = true;
            } else {
                i += 1;
            }
        }
        assert(tally(before).len() == listed.len());
        assert(tally_views(self.votes_by_proposal@).len() == listed.len());
        if found {
            assert(tally_views(self.votes_by_proposal@)[i as int] == tally(before)[i as int]);
            let number = self.votes_by_proposal[i].1;
            let ghost counts = self.votes_by_proposal@;
            self.votes_by_proposal.set(i, (content, number + 1));
            proof {
                assert(listed[i as int] == cast.proposal);
                assert(listed.contains(cast.proposal));
                assert forall|j: int| 0 <= j < listed.len() implies tally_views(
                    self.votes_by_proposal@,
                )[j] == tally(before.push(cast))[j] by {
                    assert(tally_views(counts)[j] == tally(before)[j]);
                    if j != i {
                        assert(listed[j] != listed[i as int]);
                    }
                }
                assert(tally_views(self.votes_by_proposal@) =~= tally(before.push(cast)));
            }
        } else {
            let ghost counts = self.votes_by_proposal@;
            self.votes_by_proposal.push((content, 1));
            proof {
                assert(!listed.contains(cast.proposal));
                assert forall|j: int| 0 <= j < listed.len() + 1 implies tally_views(
                    self.votes_by_proposal@,
                )[j] == tally(before.push(cast))[j] by {
                    if j < listed.len() {
                        assert(tally_views(counts)[j] == tally(before)[j]);
                        assert(listed.contains(listed[j]));
                    }
                }
                assert(tally_views(self.votes_by_proposal@) =~= tally(before.push(cast)));
            }
        }
    }

    /// Copies of the votes of the step for the content, in the order in which
    /// they came: a proof of a lock where they are enough.
    pub fn extract_polc(
        &self,
        height: u64,
        round: u64,
        vote_type: VoteType,
        proposal: &Vec<u8>,
    ) -> (votes: Vec<Vote>)
        ensures
            vote_views(votes@) == polc(self@, height, round, vote_type, proposal@),
    {
        let mut found: Vec<Vote> = Vec::new();
        let ghost all = self@;
        assert(all.take(0) =~= Seq::<VoteView>::empty());
        assert(vote_views(found@) =~= Seq::<VoteView>::empty());
        for i in 0..self.votes.len()
            invariant
                all == self@,
                vote_views(found@) == polc(all.take(i as int), height, round, vote_type, proposal@),
        {
            let vote = &self.votes[i];
            proof {
                assert(all.take(i + 1) =~= all.take(i as int).push(all[i as int]));
                lemma_step_votes_push(all.take(i as int), all[i as int], height, round, vote_type);
                lemma_content_votes_push(
                    step_votes(all.take(i as int), height, round, vote_type),
                    all[i as int],
                    proposal@,
                );
            }
            if vote.height == height && vote.round == round && vote.vote_type == vote_type
                && bytes_eq(&vote.proposal, proposal) {
                let ghost earlier = vote_views(found@);
                found.push(vote.clone());
                assert(vote_views(found@) =~= earlier.push(all[i as int]));
            }
        }
        assert(all.take(self.votes.len() as int) =~= all);
        found
    }
}

/// The vote aggregator: every vote recorded since it was last cleared.
pub struct VoteCache {
    votes: Vec<Vote>,
}

impl VoteCache {
    /// The votes recorded, in the order in which they came.
    pub closed spec fn view(&self) -> Seq<VoteView> {
        vote_views(self.votes@)
    }

    /// An aggregator without votes.
    pub fn new() -> (cache: Self)
        ensures
            cache@ == Seq::<VoteView>::empty(),
    {
        let cache = VoteCache { votes: Vec::new() };
        assert(cache@ =~= Seq::<VoteView>::empty());
        cache
    }

    /// Records a vote. A vote that was recorded before is recorded again.
    pub fn add(&mut self, vote: Vote)
        ensures
            final(self)@ == old(self)@.push(vote@),
    {
        let ghost cast = vote@;
        self.votes.push(vote);
        assert(self@ =~= old(self)@.push(cast));
    }

    /// The votes of one step with their counts, or `None` if no vote of the
    /// step was recorded.
    pub fn get_voteset(&self, height: u64, round: u64, vote_type: VoteType) -> (set: Option<
        VoteSet,
    >)
        ensures
            match set {
                Some(set) => {
                    &&& set.wf()
                    &&& set@ == step_votes(self@, height, round, vote_type)
                    &&& set@.len() > 0
                },
                None => step_votes(self@, height, round, vote_type).len() == 0,
            },
    {
        let mut set = VoteSet::new();
        let ghost all = self@;
        assert(all.take(0) =~= Seq::<VoteView>::empty());
        for i in 0..self.votes.len()
            invariant
                all == self@,
                set.wf(),
                set@ == step_votes(all.take(i as int), height, round, vote_type),
        {
            let vote = &self.votes[i];
            proof {
                assert(all.take(i + 1) =~= all.take(i as int).push(all[i as int]));
                lemma_step_votes_push(all.take(i as int), all[i as int], height, round, vote_type);
            }
            if vote.height == height && vote.round == round && vote.vote_type == vote_type {
                set.add(vote.clone());
            }
        }
        assert(all.take(self.votes.len() as int) =~= all);
        if set.count == 0 {
            None
        } else {
            Some(set)
        }
    }

    /// Forgets every vote: what ends a height.
    pub fn clear_prevote_count(&mut self)
        ensures
            final(self)@ == Seq::<VoteView>::empty(),
    {
        self.votes.clear();
        assert(self@ =~= Seq::<VoteView>::empty());
    }
}

} // verus!
