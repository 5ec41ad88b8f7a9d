//! Events that were seen before.
use vstd::prelude::*;

use crate::text_map::TextMap;

verus! {

/// The events that were seen, each with the time of its first sight in
/// milliseconds.
#[derive(Debug)]
pub struct DedupCache {
    seen: TextMap<u64>,
}

impl View for DedupCache {
    type V = Map<Seq<char>, u64>;

    closed spec fn view(&self) -> Map<Seq<char>, u64> {
        self.seen@
    }
}

/// Whether what was seen at `at` is still young at `now`.
pub open spec fn is_recent(at: u64, ttl: u64, now: u64) -> bool {
    if now < at {
        ttl > 0
    } else {
        now - at < ttl
    }
}

/// The events after one was looked at: a new one is kept with the time.
pub open spec fn after_sight(seen: Map<Seq<char>, u64>, id: Seq<char>, now: u64) -> Map<Seq<char>, u64> {
    if seen.dom().contains(id) {
        seen
    } else {
        seen.insert(id, now)
    }
}

/// The events that are still young.
pub open spec fn recent_only(seen: Map<Seq<char>, u64>, ttl: u64, now: u64) -> Map<Seq<char>, u64> {
    Map::new(|id: Seq<char>| seen.dom().contains(id) && is_recent(seen[id], ttl, now), |id: Seq<char>| seen[id])
}

impl DedupCache {
    /// Nothing was seen.
    pub fn new() -> (r: Self)
        ensures
            r@ == Map::<Seq<char>, u64>::empty(),
    {
        DedupCache { seen: TextMap::new() }
    }

    /// Whether an event is remembered.
    pub fn contains_key(&self, id: &str) -> (r: bool)
        ensures
            r == self@.dom().contains(id@),
    {
        self.seen.contains_key(id)
    }

    /// Whether an event was seen before; a new one is remembered.
    pub fn is_duplicate(&mut self, id: &str, now: u64) -> (r: bool)
        ensures
            r == old(self)@.dom().contains(id@),
            final(self)@ == after_sight(old(self)@, id@, now),
    {
        if self.seen.contains_key(id) {
            return true;
        }
        self.seen.insert(id, now);
        false
    }

    /// Forgets the events that are no longer young.
    pub fn cleanup_expired_events(&mut self, ttl: u64, now: u64)
        ensures
            final(self)@ == recent_only(old(self)@, ttl, now),
    {
        let keep = |at: &u64| -> (r: bool)
            ensures
                r == is_recent(*at, ttl, now),
            { (if now >= *at { now - *at } else { 0 }) < ttl };
        self.seen.retain(keep);
        assert(self@ =~= recent_only(old(self)@, ttl, now));
    }
}

/// An event that was seen is a duplicate at every later sight, as long as it is
/// not forgotten, and seeing it again changes nothing.
pub proof fn law_second_sight_is_duplicate(seen: Map<Seq<char>, u64>, id: Seq<char>, first: u64, second: u64)
    ensures
        after_sight(seen, id, first).dom().contains(id),
        after_sight(after_sight(seen, id, first), id, second) == after_sight(seen, id, first),
{
}

/// Seeing one event says nothing about another.
pub proof fn law_events_are_independent(seen: Map<Seq<char>, u64>, id: Seq<char>, other: Seq<char>, now: u64)
    requires
        id != other,
    ensures
        after_sight(seen, id, now).dom().contains(other) == seen.dom().contains(other),
{
}

/// A cleanup forgets an event exactly when it is too old, and touches no time.
pub proof fn law_cleanup_forgets_the_old(seen: Map<Seq<char>, u64>, id: Seq<char>, ttl: u64, now: u64)
    requires
        seen.dom().contains(id),
        seen[id] <= now,
    ensures
        recent_only(seen, ttl, now).dom().contains(id) <==> now - seen[id] < ttl,
        now - seen[id] < ttl ==> recent_only(seen, ttl, now)[id] == seen[id],
{
}

} // verus!
