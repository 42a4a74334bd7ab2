//! The proposal registry: a bounded cache of proposals by height, then round.
//!
//! Both levels are least-recently-used caches of the `lru_cache` crate. What a
//! cache holds is modelled as a sequence of (key, value) pairs, ordered from the
//! least recently used pair to the most recently used one: see
//! [`crate::whitebox::collection::lru`].

use crate::whitebox::collection::lru::{
    all_values, bounded, holds_key, index_of, inserted, key_at, lemma_inserted_after_use,
    lemma_inserted_all, lemma_inserted_bounded, lemma_inserted_hit, lemma_inserted_miss,
    lemma_mapped, lemma_refreshed, lookup, mapped, refreshed, value_at, without,
};
use crate::whitebox::types::{Proposal, ProposalView};
use lru_cache::LruCache;
use std::hash::{BuildHasher, Hash};
use vstd::prelude::*;

verus! {

/// `lru_cache::LruCache`, whose inside is not read here. What a cache holds
/// is spoken of through [`round_entries`] and [`height_entries`], and what it
/// was made to hold at most through [`round_capacity`] and [`height_capacity`].
#[verifier::external_type_specification]
#[verifier::external_body]
#[verifier::reject_recursive_types(K)]
#[verifier::reject_recursive_types(V)]
#[verifier::reject_recursive_types(S)]
pub struct ExLruCache<K: Eq + Hash, V, S: BuildHasher>(LruCache<K, V, S>);

/// The number of entries that each level of the registry holds at most.
pub const CAPACITY: usize = 16;

/// The proposals of one height as (round, proposal) pairs.
pub type Rounds = Seq<(u64, ProposalView)>;

/// The proposals of all heights as (height, proposals of the height) pairs.
pub type Registry = Seq<(u64, Rounds)>;

/// The (round, proposal) pairs that a cache of one height holds, from the least
/// recently used to the most recently used.
pub uninterp spec fn round_entries(cache: LruCache<u64, Proposal>) -> Rounds;

/// The number of pairs that a cache of one height was made to hold.
pub uninterp spec fn round_capacity(cache: LruCache<u64, Proposal>) -> nat;

/// `LruCache::new`: an empty cache that holds at most `capacity` pairs.
#[verifier::external_body]
fn rounds_new(capacity: usize) -> (cache: LruCache<u64, Proposal>)
    ensures
        round_entries(cache) == Seq::<(u64, ProposalView)>::empty(),
        round_capacity(cache) == capacity,
{
    LruCache::new(capacity)
}

/// `LruCache::contains_key`: says whether the key is held. It looks the key up
/// as `get_mut` does, so a key that is held becomes the most recently used one.
#[verifier::external_body]
fn rounds_contains_key(cache: &mut LruCache<u64, Proposal>, round: u64) -> (found: bool)
    ensures
        found == holds_key(round_entries(*old(cache)), round),
        round_entries(*final(cache)) == refreshed(round_entries(*old(cache)), round),
        round_capacity(*final(cache)) == round_capacity(*old(cache)),
{
    cache.contains_key(&round)
}

/// `LruCache::insert`: puts the pair at the most recently used end, in place of
/// an earlier pair of the key, and then drops the least recently used pair if
/// the cache holds more than its capacity.
#[verifier::external_body]
fn rounds_insert(cache: &mut LruCache<u64, Proposal>, round: u64, proposal: Proposal)
    ensures
        round_entries(*final(cache)) == inserted(
            round_entries(*old(cache)),
            round_capacity(*old(cache)),
            round,
            proposal@,
        ),
        round_capacity(*final(cache)) == round_capacity(*old(cache)),
{
    cache.insert(round, proposal);
}

/// `LruCache::get_mut`: a key that is held becomes the most recently used one,
/// and its value is handed out to be changed in place.
#[verifier::external_body]
fn rounds_get_mut(cache: &mut LruCache<u64, Proposal>, round: u64) -> (slot: Option<
    &mut Proposal,
>)
    ensures
        round_capacity(*final(cache)) == round_capacity(*old(cache)),
        match slot {
            Some(proposal) => {
                &&& lookup(round_entries(*old(cache)), round) == Some(proposal@)
                &&& round_entries(*final(cache)) == without(
                    round_entries(*old(cache)),
                    round,
                ).push((round, final(proposal)@))
            },
            None => {
                &&& lookup(round_entries(*old(cache)), round) is None
                &&& round_entries(*final(cache)) == round_entries(*old(cache))
            },
        },
{
    cache.get_mut(&round)
}

/// The proposals of one height, by round.
pub struct ProposalRoundCollector {
    round_proposals: LruCache<u64, Proposal>,
}

impl ProposalRoundCollector {
    /// The (round, proposal) pairs held, from the least to the most recently used.
    pub closed spec fn view(&self) -> Rounds {
        round_entries(self.round_proposals)
    }

    /// No round twice, and no more than [`CAPACITY`] rounds.
    pub closed spec fn wf(&self) -> bool {
        &&& round_capacity(self.round_proposals) == CAPACITY
        &&& bounded(self@, CAPACITY as nat)
    }

    /// What holds of the pairs of a well-formed collector.
    pub proof fn lemma_wf(&self)
        requires
            self.wf(),
        ensures
            bounded(self@, CAPACITY as nat),
    {
    }

    /// A collector that holds nothing.
    pub fn new() -> (collector: Self)
        ensures
            collector.wf(),
            collector@ == Seq::<(u64, ProposalView)>::empty(),
    {
        ProposalRoundCollector { round_proposals: rounds_new(CAPACITY) }
    }

    /// Records the proposal for the round unless the round has one: the first
    /// proposal of a round stays. Says whether the proposal was recorded.
    pub fn add(&mut self, round: u64, proposal: Proposal) -> (fresh: bool)
        requires
            old(self).wf(),
        ensures
            final(self).wf(),
            fresh == !holds_key(old(self)@, round),
            final(self)@ == rounds_added(old(self)@, round, proposal@),
    {
        proof {
            lemma_refreshed(self@, CAPACITY as nat, round, round);
            lemma_inserted_bounded(self@, CAPACITY as nat, round, proposal@);
        }
        if rounds_contains_key(&mut self.round_proposals, round) {
            false
        } else {
            rounds_insert(&mut self.round_proposals, round, proposal);
            true
        }
    }

    /// A copy of the proposal of the round, which becomes the most recently used one.
    pub fn get_proposal(&mut self, round: u64) -> (found: Option<Proposal>)
        requires
            old(self).wf(),
        ensures
            final(self).wf(),
            final(self)@ == refreshed(old(self)@, round),
            match found {
                Some(proposal) => lookup(old(self)@, round) == Some(proposal@),
                None => lookup(old(self)@, round) is None,
            },
    {
        let ghost before = self@;
        proof {
            lemma_refreshed(before, CAPACITY as nat, round, round);
        }
        match rounds_get_mut(&mut self.round_proposals, round) {
            Some(proposal) => {
                let found = proposal.clone();
                proof {
                    let i = index_of(before, round);
                    assert(0 <= i < before.len() && key_at(before, i) == round);
                    assert(before[i] == (round, proposal@));
                }
                Some(found)
            },
            None => None,
        }
    }
}

/// The rounds of a height after `proposal` was offered for `round`.
pub open spec fn rounds_added(rounds: Rounds, round: u64, proposal: ProposalView) -> Rounds {
    if holds_key(rounds, round) {
        refreshed(rounds, round)
    } else {
        inserted(rounds, CAPACITY as nat, round, proposal)
    }
}

/// The (height, collector) pairs that a registry holds, from the least recently
/// used to the most recently used.
pub uninterp spec fn height_entries(cache: LruCache<u64, ProposalRoundCollector>) -> Seq<
    (u64, ProposalRoundCollector),
>;

/// The number of pairs that a registry was made to hold.
pub uninterp spec fn height_capacity(cache: LruCache<u64, ProposalRoundCollector>) -> nat;

/// `LruCache::new`: an empty cache that holds at most `capacity` pairs.
#[verifier::external_body]
fn heights_new(capacity: usize) -> (cache: LruCache<u64, ProposalRoundCollector>)
    ensures
        height_entries(cache) == Seq::<(u64, ProposalRoundCollector)>::empty(),
        height_capacity(cache) == capacity,
{
    LruCache::new(capacity)
}

/// `LruCache::contains_key`: says whether the key is held. It looks the key up
/// as `get_mut` does, so a key that is held becomes the most recently used one.
#[verifier::external_body]
fn heights_contains_key(cache: &mut LruCache<u64, ProposalRoundCollector>, height: u64) -> (found:
    bool)
    ensures
        found == holds_key(height_entries(*old(cache)), height),
        height_entries(*final(cache)) == refreshed(height_entries(*old(cache)), height),
        height_capacity(*final(cache)) == height_capacity(*old(cache)),
{
    cache.contains_key(&height)
}

/// `LruCache::insert`: puts the pair at the most recently used end, in place of
/// an earlier pair of the key, and then drops the least recently used pair if
/// the cache holds more than its capacity.
#[verifier::external_body]
fn heights_insert(
    cache: &mut LruCache<u64, ProposalRoundCollector>,
    height: u64,
    collector: ProposalRoundCollector,
)
    ensures
        height_entries(*final(cache)) == inserted(
            height_entries(*old(cache)),
            height_capacity(*old(cache)),
            height,
            collector,
        ),
        height_capacity(*final(cache)) == height_capacity(*old(cache)),
{
    cache.insert(height, collector);
}

/// `LruCache::get_mut`: a key that is held becomes the most recently used one,
/// and its value is handed out to be changed in place.
#[verifier::external_body]
fn heights_get_mut(cache: &mut LruCache<u64, ProposalRoundCollector>, height: u64) -> (slot: Option<
    &mut ProposalRoundCollector,
>)
    ensures
        height_capacity(*final(cache)) == height_capacity(*old(cache)),
        match slot {
            Some(collector) => {
                &&& lookup(height_entries(*old(cache)), height) == Some(*collector)
                &&& height_entries(*final(cache)) == without(
                    height_entries(*old(cache)),
                    height,
                ).push((height, *final(collector)))
            },
            None => {
                &&& lookup(height_entries(*old(cache)), height) is None
                &&& height_entries(*final(cache)) == height_entries(*old(cache))
            },
        },
{
    cache.get_mut(&height)
}

/// The rounds that the registry holds for the height; none if it holds none.
pub open spec fn rounds_at(registry: Registry, height: u64) -> Rounds {
    match lookup(registry, height) {
        Some(rounds) => rounds,
        None => Seq::empty(),
    }
}

/// The proposal that the registry holds for the height and round.
pub open spec fn registry_get(registry: Registry, height: u64, round: u64) -> Option<
    ProposalView,
> {
    lookup(rounds_at(registry, height), round)
}

/// The registry after `proposal` was offered to it.
pub open spec fn registry_added(registry: Registry, proposal: ProposalView) -> Registry {
    inserted(
        registry,
        CAPACITY as nat,
        proposal.height,
        rounds_added(rounds_at(registry, proposal.height), proposal.round, proposal),
    )
}

/// The registry after the proposal of the height and round was asked for.
pub open spec fn registry_touched(registry: Registry, height: u64, round: u64) -> Registry {
    if holds_key(registry, height) {
        inserted(registry, CAPACITY as nat, height, refreshed(rounds_at(registry, height), round))
    } else {
        registry
    }
}

/// Whether a registry is within its bounds at both levels.
pub open spec fn registry_wf(registry: Registry) -> bool {
    &&& bounded(registry, CAPACITY as nat)
    &&& all_values(registry, |rounds: Rounds| bounded(rounds, CAPACITY as nat))
}

/// The rounds of every height of a registry within its bounds are within theirs.
pub proof fn lemma_rounds_at(registry: Registry, height: u64)
    requires
        registry_wf(registry),
    ensures
        bounded(rounds_at(registry, height), CAPACITY as nat),
{
    if holds_key(registry, height) {
        let i = index_of(registry, height);
        assert(0 <= i < registry.len() && key_at(registry, i) == height);
        assert(rounds_at(registry, height) == value_at(registry, i));
    }
}

/// An offer keeps the bounds of what a height holds, and puts the proposal in
/// its round unless the round has one.
pub proof fn lemma_rounds_added(rounds: Rounds, round: u64, proposal: ProposalView, other: u64)
    requires
        bounded(rounds, CAPACITY as nat),
    ensures
        bounded(rounds_added(rounds, round, proposal), CAPACITY as nat),
        lookup(rounds_added(rounds, round, proposal), round) == match lookup(rounds, round) {
            Some(first) => Some(first),
            None => Some(proposal),
        },
        other != round ==> lookup(rounds_added(rounds, round, proposal), other) == lookup(
            rounds,
            other,
        ) || lookup(rounds_added(rounds, round, proposal), other) is None,
        other != round && (holds_key(rounds, round) || rounds.len() < CAPACITY) ==> lookup(
            rounds_added(rounds, round, proposal),
            other,
        ) == lookup(rounds, other),
{
    lemma_refreshed(rounds, CAPACITY as nat, round, round);
    lemma_refreshed(rounds, CAPACITY as nat, round, other);
    lemma_inserted_bounded(rounds, CAPACITY as nat, round, proposal);
    lemma_inserted_hit(rounds, CAPACITY as nat, round, proposal);
    if other != round {
        lemma_inserted_miss(rounds, CAPACITY as nat, round, proposal, other);
    }
}

/// Round trip, and the first writer wins: after a proposal was offered, its
/// slot holds what it held before, or the proposal if it held nothing. The
/// registry stays within its bounds.
pub proof fn lemma_add_then_get(registry: Registry, proposal: ProposalView)
    requires
        registry_wf(registry),
    ensures
        registry_wf(registry_added(registry, proposal)),
        registry_get(registry_added(registry, proposal), proposal.height, proposal.round)
            == match registry_get(registry, proposal.height, proposal.round) {
            Some(first) => Some(first),
            None => Some(proposal),
        },
{
    let height = proposal.height;
    let rounds = rounds_at(registry, height);
    let offered = rounds_added(rounds, proposal.round, proposal);
    let within = |r: Rounds| bounded(r, CAPACITY as nat);
    lemma_rounds_at(registry, height);
    lemma_rounds_added(rounds, proposal.round, proposal, proposal.round);
    lemma_inserted_bounded(registry, CAPACITY as nat, height, offered);
    lemma_inserted_hit(registry, CAPACITY as nat, height, offered);
    assert(within(offered));
    lemma_inserted_all(registry, CAPACITY as nat, height, offered, within);
}

/// Idempotent rejection: a second proposal for a slot finds the slot taken,
/// so that it is refused, and leaves in it what the first one left.
pub proof fn lemma_second_add_rejected(
    registry: Registry,
    first: ProposalView,
    second: ProposalView,
)
    requires
        registry_wf(registry),
        second.height == first.height,
        second.round == first.round,
    ensures
        ({
            let once = registry_added(registry, first);
            let twice = registry_added(once, second);
            &&& registry_get(once, first.height, first.round) is Some
            &&& registry_get(twice, first.height, first.round) == registry_get(
                once,
                first.height,
                first.round,
            )
            &&& registry_get(registry, first.height, first.round) is None ==> registry_get(
                twice,
                first.height,
                first.round,
            ) == Some(first)
        }),
{
    lemma_add_then_get(registry, first);
    lemma_add_then_get(registry_added(registry, first), second);
}

/// An offer to one slot leaves every other slot as it was, unless room had to
/// be made: where the registry holds the proposal's height or fewer than
/// [`CAPACITY`] heights, and, for a slot of that height, the height holds the
/// proposal's round or fewer than [`CAPACITY`] rounds. In any case another
/// slot holds what it held, or nothing.
pub proof fn lemma_add_keeps_others(
    registry: Registry,
    proposal: ProposalView,
    height: u64,
    round: u64,
)
    requires
        registry_wf(registry),
        height != proposal.height || round != proposal.round,
    ensures
        ({
            let after = registry_added(registry, proposal);
            let rounds = rounds_at(registry, proposal.height);
            &&& registry_get(after, height, round) == registry_get(registry, height, round)
                || registry_get(after, height, round) is None
            &&& (holds_key(registry, proposal.height) || registry.len() < CAPACITY) && (height
                == proposal.height ==> holds_key(rounds, proposal.round) || rounds.len()
                < CAPACITY) ==> registry_get(after, height, round) == registry_get(
                registry,
                height,
                round,
            )
        }),
{
    let rounds = rounds_at(registry, proposal.height);
    let offered = rounds_added(rounds, proposal.round, proposal);
    lemma_rounds_at(registry, height);
    if height == proposal.height {
        lemma_rounds_added(rounds, proposal.round, proposal, round);
        lemma_inserted_hit(registry, CAPACITY as nat, height, offered);
    } else {
        lemma_inserted_miss(registry, CAPACITY as nat, proposal.height, offered, height);
    }
}

/// To ask for a proposal changes no slot: only the order of use changes.
pub proof fn lemma_touch_keeps_all(
    registry: Registry,
    asked_height: u64,
    asked_round: u64,
    height: u64,
    round: u64,
)
    requires
        registry_wf(registry),
    ensures
        registry_wf(registry_touched(registry, asked_height, asked_round)),
        registry_get(registry_touched(registry, asked_height, asked_round), height, round)
            == registry_get(registry, height, round),
{
    if holds_key(registry, asked_height) {
        let rounds = rounds_at(registry, asked_height);
        let used = refreshed(rounds, asked_round);
        let within = |r: Rounds| bounded(r, CAPACITY as nat);
        lemma_rounds_at(registry, asked_height);
        lemma_refreshed(rounds, CAPACITY as nat, asked_round, round);
        lemma_inserted_bounded(registry, CAPACITY as nat, asked_height, used);
        assert(within(used));
        lemma_inserted_all(registry, CAPACITY as nat, asked_height, used, within);
        if height == asked_height {
            lemma_inserted_hit(registry, CAPACITY as nat, asked_height, used);
        } else {
            lemma_inserted_miss(registry, CAPACITY as nat, asked_height, used, height);
        }
    }
}

/// The bounded cache of proposals, by height and then by round.
pub struct ProposalCache {
    proposals: LruCache<u64, ProposalRoundCollector>,
}

impl ProposalCache {
    /// The (height, rounds) pairs held, from the least to the most recently used.
    pub closed spec fn view(&self) -> Registry {
        mapped(height_entries(self.proposals), |c: ProposalRoundCollector| c@)
    }

    /// Both levels are within their bounds.
    pub closed spec fn wf(&self) -> bool {
        &&& height_capacity(self.proposals) == CAPACITY
        &&& bounded(height_entries(self.proposals), CAPACITY as nat)
        &&& all_values(height_entries(self.proposals), |c: ProposalRoundCollector| c.wf())
    }

    /// What holds of the pairs of a well-formed registry.
    pub proof fn lemma_wf(&self)
        requires
            self.wf(),
        ensures
            registry_wf(self@),
    {
        let entries = height_entries(self.proposals);
        lemma_mapped(entries, |c: ProposalRoundCollector| c@, 0);
        assert forall|i: int| 0 <= i < self@.len() implies bounded(
            #[trigger] value_at(self@, i),
            CAPACITY as nat,
        ) by {
            assert(value_at(entries, i).wf());
            value_at(entries, i).lemma_wf();
        }
    }

    /// A registry that holds nothing.
    pub fn new() -> (cache: Self)
        ensures
            cache.wf(),
            cache@ == Seq::<(u64, Rounds)>::empty(),
    {
        let cache = ProposalCache { proposals: heights_new(CAPACITY) };
        assert(cache@ =~= Seq::<(u64, Rounds)>::empty());
        cache
    }

    /// Records the proposal unless its height and round have one: the first
    /// proposal of a slot stays. Says whether the proposal was recorded.
    pub fn add(&mut self, proposal: Proposal) -> (fresh: bool)
        requires
            old(self).wf(),
        ensures
            final(self).wf(),
            fresh == (registry_get(old(self)@, proposal.height, proposal.round) is None),
            final(self)@ == registry_added(old(self)@, proposal@),
    {
        let height = proposal.height;
        let round = proposal.round;
        let ghost view = |c: ProposalRoundCollector| c@;
        let ghost well = |c: ProposalRoundCollector| c.wf();
        let ghost before = height_entries(self.proposals);
        let ghost offered = proposal@;
        proof {
            lemma_mapped(before, view, height);
            lemma_refreshed(before, CAPACITY as nat, height, height);
        }
        if heights_contains_key(&mut self.proposals, height) {
            let ghost used = height_entries(self.proposals);
            let collector = heights_get_mut(&mut self.proposals, height).unwrap();
            let ghost found = *collector;
            proof {
                let i = index_of(before, height);
                assert(0 <= i < before.len() && key_at(before, i) == height);
                assert(found == value_at(before, i));
            }
            let fresh = collector.add(round, proposal);
            let ghost changed = *collector;
            proof {
                let after = height_entries(self.proposals);
                assert(after == inserted(used, CAPACITY as nat, height, changed));
                lemma_inserted_after_use(before, CAPACITY as nat, height, changed);
                lemma_inserted_bounded(before, CAPACITY as nat, height, changed);
                lemma_inserted_all(before, CAPACITY as nat, height, changed, well);
            }
            fresh
        } else {
            let mut round_proposals = ProposalRoundCollector::new();
            round_proposals.add(round, proposal);
            let ghost made = round_proposals;
            heights_insert(&mut self.proposals, height, round_proposals);
            proof {
                lemma_inserted_bounded(before, CAPACITY as nat, height, made);
                lemma_inserted_all(before, CAPACITY as nat, height, made, well);
            }
            true
        }
    }

    /// A copy of the proposal of the height and round; both become the most
    /// recently used of their level.
    pub fn get_proposal(&mut self, height: u64, round: u64) -> (found: Option<Proposal>)
        requires
            old(self).wf(),
        ensures
            final(self).wf(),
            final(self)@ == registry_touched(old(self)@, height, round),
            match found {
                Some(proposal) => registry_get(old(self)@, height, round) == Some(proposal@),
                None => registry_get(old(self)@, height, round) is None,
            },
    {
        let ghost view = |c: ProposalRoundCollector| c@;
        let ghost well = |c: ProposalRoundCollector| c.wf();
        let ghost before = height_entries(self.proposals);
        proof {
            lemma_mapped(before, view, height);
        }
        match heights_get_mut(&mut self.proposals, height) {
            Some(collector) => {
                let ghost held = *collector;
                proof {
                    let i = index_of(before, height);
                    assert(0 <= i < before.len() && key_at(before, i) == height);
                    assert(held == value_at(before, i));
                }
                let found = collector.get_proposal(round);
                let ghost changed = *collector;
                proof {
                    let after = height_entries(self.proposals);
                    assert(after == inserted(before, CAPACITY as nat, height, changed));
                    lemma_inserted_bounded(before, CAPACITY as nat, height, changed);
                    lemma_inserted_all(before, CAPACITY as nat, height, changed, well);
                }
                found
            },
            None => None,
        }
    }
}

} // verus!
