//! The pending-refresh ledger: which users must have their claims
//! recomputed on next contact, and since when.
//!
//! A permission change marks the affected user; the next touch of that
//! user's session consumes the mark and refreshes. Marks that nobody
//! consumes are pruned by age, so the ledger stays bounded.

use crate::auth::REISSUE_AFTER_SECONDS;
use std::collections::HashMap;
use std::time::{SystemTime, UNIX_EPOCH};
use vstd::prelude::*;

verus! {

/// Period of the background prune.
pub const CLEANUP_INTERVAL_SECONDS: usize = REISSUE_AFTER_SECONDS;

/// Age at which the background prune drops a mark: two reissue windows, so
/// that a mark outlives one full reissue cycle.
pub const PRUNE_AGE_SECONDS: usize = 2 * REISSUE_AFTER_SECONDS;

/// Reads the system clock: `SystemTime::now()`, taken as whole seconds since
/// `UNIX_EPOCH`. `None` when the clock stands before the epoch. Trusted:
/// nothing is claimed of the reading.
#[verifier::external_body]
fn clock_seconds() -> Option<u64> {
    match SystemTime::now().duration_since(UNIX_EPOCH) {
        Ok(elapsed) => Some(elapsed.as_secs()),
        Err(_) => None,
    }
}

/// The timestamp that a reading of the clock stands for: its seconds, cut
/// to the width of `usize`, and 0 where the clock gave no reading.
pub open spec fn timestamp_of(reading: Option<u64>) -> usize {
    match reading {
        Some(seconds) => seconds as usize,
        None => 0,
    }
}

/// Turns a reading of the clock into a timestamp.
pub fn timestamp_from(reading: Option<u64>) -> (now: usize)
    ensures
        now == timestamp_of(reading),
{
    match reading {
        Some(seconds) => {
            #[verifier::truncate]
            let now = seconds as usize;
            now
        },
        None => 0,
    }
}

/// Seconds since the Unix epoch by the system clock; 0 for a clock that
/// stands before the epoch.
pub fn current_timestamp() -> usize {
    timestamp_from(clock_seconds())
}

/// Whether a mark made at `timestamp` has reached `max_age` at time `now`.
/// A mark from the future has no age yet.
pub open spec fn is_expired(timestamp: usize, now: usize, max_age: usize) -> bool {
    now - timestamp >= max_age
}

/// The ledger after pruning at `now`: the marks younger than `max_age`.
pub open spec fn pruned(pending: Map<i64, usize>, now: usize, max_age: usize) -> Map<i64, usize> {
    Map::new(
        |user_id: i64| pending.contains_key(user_id) && !is_expired(pending[user_id], now, max_age),
        |user_id: i64| pending[user_id],
    )
}

/// Users whose authorization must be recomputed, each with the time of the
/// latest mark.
pub struct PermissionRefreshList {
    inner: HashMap<i64, usize>,
}

impl View for PermissionRefreshList {
    type V = Map<i64, usize>;

    closed spec fn view(&self) -> Map<i64, usize> {
        self.inner@
    }
}

impl PermissionRefreshList {
    /// An empty ledger.
    pub fn new() -> (list: Self)
        ensures
            list@ == Map::<i64, usize>::empty(),
    {
        PermissionRefreshList { inner: HashMap::new() }
    }

    /// Marks `user_id` at time `now`, replacing an earlier mark.
    pub fn mark_user_for_refresh_at(&mut self, user_id: i64, now: usize)
        ensures
            final(self)@ == old(self)@.insert(user_id, now),
    {
        self.inner.insert(user_id, now);
    }

    /// Marks `user_id` at the time the system clock shows, replacing an
    /// earlier mark.
    pub fn mark_user_for_refresh(&mut self, user_id: i64)
        ensures
            exists|now: usize| final(self)@ == #[trigger] old(self)@.insert(user_id, now),
    {
        let now = current_timestamp();
        self.mark_user_for_refresh_at(user_id, now);
    }

    /// Takes the mark of `user_id` out of the ledger and says whether there
    /// was one.
    pub fn consume_refresh_request(&mut self, user_id: i64) -> (was_pending: bool)
        ensures
            was_pending == old(self)@.contains_key(user_id),
            final(self)@ == old(self)@.remove(user_id),
    {
        self.inner.remove(&user_id).is_some()
    }

    /// The destructive read, under the name by which the check of a request
    /// calls it.
    pub fn should_refresh(&mut self, user_id: i64) -> (was_pending: bool)
        ensures
            was_pending == old(self)@.contains_key(user_id),
            final(self)@ == old(self)@.remove(user_id),
    {
        self.consume_refresh_request(user_id)
    }

    /// Whether `user_id` is marked; the ledger stays as it is.
    pub fn has_pending_refresh(&self, user_id: i64) -> (pending: bool)
        ensures
            pending == self@.contains_key(user_id),
    {
        self.inner.contains_key(&user_id)
    }

    /// Drops every mark that has reached `max_age` at time `now` and keeps
    /// every other.
    pub fn prune_old_entries_at(&mut self, max_age: usize, now: usize)
        ensures
            final(self)@ == pruned(old(self)@, now, max_age),
    {
        let mut stale: Vec<i64> = Vec::new();
        let ghost before = self.inner@;
        for entry in it: self.inner.iter()
            invariant
                self.inner@ == before,
                forall|i: int|
                    0 <= i < it.seq().len() ==> before.contains_key(*(#[trigger] it.seq()[i]).0)
                        && before[*it.seq()[i].0] == *it.seq()[i].1,
                forall|user_id: i64| #[trigger]
                    before.contains_key(user_id) ==> it.seq().contains((&user_id, &before[user_id])),
                forall|j: int|
                    0 <= j < stale.len() ==> before.contains_key(#[trigger] stale[j]) && is_expired(
                        before[stale[j]],
                        now,
                        max_age,
                    ),
                forall|i: int|
                    0 <= i < it.index() && is_expired(*it.seq()[i].1, now, max_age)
                        ==> stale@.contains(*(#[trigger] it.seq()[i]).0),
        {
            let (user_id, timestamp) = entry;
            let ghost earlier = stale@;
            if *timestamp <= now && now - *timestamp >= max_age {
                stale.push(*user_id);
            }
            proof {
                assert forall|i: int|
                    0 <= i < it.index() + 1 && is_expired(
                        *it.seq()[i].1,
                        now,
                        max_age,
                    ) implies stale@.contains(*(#[trigger] it.seq()[i]).0) by {
                    if i < it.index() {
                        let at = earlier.index_of(*it.seq()[i].0);
                        assert(stale@[at] == *it.seq()[i].0);
                    } else {
                        assert(stale@[stale.len() - 1] == *it.seq()[i].0);
                    }
                }
            }
        }
        assert forall|user_id: i64|
            before.contains_key(user_id) && is_expired(
                before[user_id],
                now,
                max_age,
            ) implies stale@.contains(user_id) by {
            assert(before.contains_key(user_id));
        }
        let mut j: usize = 0;
        while j < stale.len()
            invariant
                j <= stale.len(),
                self.inner@ == before.remove_keys(stale@.take(j as int).to_set()),
            decreases stale.len() - j,
        {
            self.inner.remove(&stale[j]);
            proof {
                let done = stale@.take(j as int);
                let next = stale@.take(j + 1);
                assert(next.drop_last() =~= done);
                assert forall|user_id: i64| next.to_set().contains(user_id) == (done.to_set().contains(
                    user_id,
                ) || user_id == stale[j as int]) by {
                    if done.contains(user_id) {
                        let at = done.index_of(user_id);
                        assert(next[at] == user_id);
                    }
                    if user_id == stale[j as int] {
                        assert(next[j as int] == user_id);
                    }
                }
                assert(self.inner@ =~= before.remove_keys(next.to_set()));
            }
            j = j + 1;
        }
        proof {
            assert(stale@.take(stale.len() as int) =~= stale@);
            assert(self.inner@ =~= pruned(before, now, max_age));
        }
    }

    /// Prunes at the time the system clock shows.
    pub fn prune_old_entries(&mut self, max_age: usize)
        ensures
            exists|now: usize| final(self)@ == #[trigger] pruned(old(self)@, now, max_age),
    {
        let now = current_timestamp();
        self.prune_old_entries_at(max_age, now);
    }
}

/// One mark is consumed once: of two destructive reads that follow it, the
/// first finds the mark and the second finds nothing.
pub proof fn lemma_mark_is_consumed_once(pending: Map<i64, usize>, user_id: i64, now: usize)
    ensures
        pending.insert(user_id, now).contains_key(user_id),
        !pending.insert(user_id, now).remove(user_id).contains_key(user_id),
{
}

/// Pruning removes exactly the marks whose age has reached `max_age`, and
/// leaves the time of every mark it keeps.
pub proof fn lemma_prune_is_exact(pending: Map<i64, usize>, now: usize, max_age: usize)
    ensures
        forall|user_id: i64|
            pruned(pending, now, max_age).contains_key(user_id) <==> pending.contains_key(user_id)
                && now - pending[user_id] < max_age,
        forall|user_id: i64|
            pruned(pending, now, max_age).contains_key(user_id) ==> pruned(
                pending,
                now,
                max_age,
            )[user_id] == pending[user_id],
{
}

/// A mark made once a prune has run is in the ledger, whatever the prune
/// dropped.
pub proof fn lemma_mark_after_prune_is_pending(
    pending: Map<i64, usize>,
    user_id: i64,
    marked_at: usize,
    now: usize,
    max_age: usize,
)
    ensures
        pruned(pending, now, max_age).insert(user_id, marked_at).contains_key(user_id),
        pruned(pending, now, max_age).insert(user_id, marked_at)[user_id] == marked_at,
{
}

/// A mark made no earlier than the time a prune goes by survives that
/// prune, as long as the prune allows any age at all.
pub proof fn lemma_later_mark_survives_prune(
    pending: Map<i64, usize>,
    user_id: i64,
    marked_at: usize,
    now: usize,
    max_age: usize,
)
    requires
        marked_at >= now,
        max_age > 0,
    ensures
        pruned(pending.insert(user_id, marked_at), now, max_age).contains_key(user_id),
{
}

/// A mark outlives a full reissue cycle: the background prune, run with
/// `PRUNE_AGE_SECONDS`, keeps it throughout the reissue window that follows
/// the mark and the one after.
pub proof fn lemma_mark_outlives_reissue_cycle(
    pending: Map<i64, usize>,
    user_id: i64,
    marked_at: usize,
    now: usize,
)
    requires
        now < marked_at + 2 * REISSUE_AFTER_SECONDS,
    ensures
        pruned(pending.insert(user_id, marked_at), now, PRUNE_AGE_SECONDS).contains_key(user_id),
{
}

} // verus!
