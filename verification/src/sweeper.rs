//! The TTL sweeper's tick: at each tick the expiry threshold is the current
//! time minus the configured TTL, and at most one bounded batch of entries at
//! or before the threshold is deleted, so a tick never holds storage for an
//! unbounded span. The loop that waits a second between ticks and watches for
//! cancellation runs outside; each pass hands the clock reading in here.

use vstd::prelude::*;
use crate::store::CacheStore;
use crate::store::EntryModel;
use crate::store::contains_key;
use crate::store::entry_of;
use crate::store::expired_count;
use crate::store::key_idx;
use crate::store::lemma_entry_of_member;
use crate::store::lemma_expired_count_zero;
use crate::store::lemma_key_idx;
use crate::store::lemma_sweep_counts;
use crate::store::lemma_sweep_keeps_fresh;
use crate::store::lemma_sweep_subset;
use crate::store::lemma_sweep_wf;
use crate::store::min_nat;
use crate::store::sweep_spec;
use crate::store::unique_keys;
use crate::engine::complete_spec;
use crate::engine::is_blank;
use crate::engine::json_well_formed;
use crate::engine::lemma_miss_then_hit;
use crate::engine::probe_spec;
use crate::engine::ProbeModel;

verus! {

/// At most this many rows leave per tick.
pub const SWEEP_BATCH_CAP: usize = 10;

/// Seconds between ticks, independent of the TTL's magnitude.
pub const SWEEP_INTERVAL_SECS: u64 = 1;

/// The expiry threshold a tick at time `now` uses: entries dated at or before
/// it are eligible for deletion under the currently configured `ttl`.
pub fn sweep_threshold(now: i64, ttl: i64) -> (t: i64)
    requires
        i64::MIN <= now - ttl <= i64::MAX,
    ensures
        t == now - ttl,
{
    now - ttl
}

/// What one tick at time `now` under TTL `ttl` leaves in the store.
pub open spec fn tick_spec(s: Seq<EntryModel>, ttl: i64, now: i64) -> Seq<EntryModel> {
    sweep_spec(s, now - ttl, SWEEP_BATCH_CAP as nat)
}

/// One tick: delete one bounded batch of entries that the currently
/// configured `ttl` makes eligible at time `now`.
pub fn sweeper_tick(store: &mut CacheStore, ttl: i64, now: i64) -> (deleted: usize)
    requires
        old(store).wf(),
        i64::MIN <= now - ttl <= i64::MAX,
    ensures
        final(store)@ == tick_spec(old(store)@, ttl, now),
        final(store)@ == sweep_spec(old(store)@, now - ttl, SWEEP_BATCH_CAP as nat),
        deleted == old(store)@.len() - final(store)@.len(),
        deleted == min_nat(SWEEP_BATCH_CAP as nat, expired_count(old(store)@, now - ttl)),
        deleted <= SWEEP_BATCH_CAP,
        final(store).wf(),
{
    let threshold = sweep_threshold(now, ttl);
    proof {
        lemma_sweep_counts(old(store)@, now - ttl, SWEEP_BATCH_CAP as nat);
    }
    store.sweep_batch(threshold, SWEEP_BATCH_CAP)
}

/// Expiry law, deletion half: an entry dated at or before the threshold is
/// gone after one tick, provided the batch cap covers all eligible entries
/// (with more of them than the cap, deletion may take later ticks instead).
pub proof fn lemma_tick_deletes_expired(s: Seq<EntryModel>, k: Seq<char>, t: int, cap: nat)
    requires
        unique_keys(s),
        contains_key(s, k),
        entry_of(s, k).created_at <= t,
        expired_count(s, t) <= cap,
    ensures
        !contains_key(sweep_spec(s, t, cap), k),
{
    let res = sweep_spec(s, t, cap);
    lemma_sweep_counts(s, t, cap);
    assert(expired_count(res, t) == 0);
    lemma_expired_count_zero(res, t);
    lemma_key_idx(s, k);
    lemma_key_idx(res, k);
    if contains_key(res, k) {
        let w = key_idx(res, k);
        assert(res[w].key == k);
        assert(res[w].created_at > t);
        assert(res.contains(res[w]));
        lemma_sweep_subset(s, t, cap);
        assert(s.contains(res[w]));
        let j = choose|j: int| 0 <= j < s.len() && s[j] == res[w];
        lemma_entry_of_member(s, k, j);
        assert(false);
    }
}

/// Expiry law, preservation half: an entry dated after the threshold survives
/// any tick untouched, its payload and recorded time included.
pub proof fn lemma_tick_keeps_fresh(s: Seq<EntryModel>, k: Seq<char>, t: int, cap: nat)
    requires
        unique_keys(s),
        contains_key(s, k),
        entry_of(s, k).created_at > t,
    ensures
        contains_key(sweep_spec(s, t, cap), k),
        entry_of(sweep_spec(s, t, cap), k) == entry_of(s, k),
{
    let res = sweep_spec(s, t, cap);
    let e = entry_of(s, k);
    lemma_key_idx(s, k);
    assert(s.contains(e));
    lemma_sweep_keeps_fresh(s, t, cap);
    assert(res.contains(e));
    lemma_sweep_wf(s, t, cap);
    let i = choose|i: int| 0 <= i < res.len() && res[i] == e;
    lemma_entry_of_member(res, k, i);
}

/// Batch bound law, single tick: a tick deletes exactly as many entries as
/// are eligible, capped by the batch bound, and never more than the bound.
pub proof fn lemma_tick_batch_bound(s: Seq<EntryModel>, t: int, cap: nat)
    ensures
        s.len() - sweep_spec(s, t, cap).len() == min_nat(cap, expired_count(s, t)),
        s.len() - sweep_spec(s, t, cap).len() <= cap,
        expired_count(sweep_spec(s, t, cap), t) == expired_count(s, t) - min_nat(
            cap,
            expired_count(s, t),
        ),
{
    lemma_sweep_counts(s, t, cap);
}

/// The store after `k` consecutive ticks at one threshold.
pub open spec fn sweep_iter(s: Seq<EntryModel>, t: int, cap: nat, k: nat) -> Seq<EntryModel>
    decreases k,
{
    if k == 0 {
        s
    } else {
        sweep_iter(sweep_spec(s, t, cap), t, cap, (k - 1) as nat)
    }
}

/// Batch bound law, later ticks: each tick drains the eligible entries by a
/// full batch, so `k` ticks leave `max(0, eligible - k * cap)` of them.
pub proof fn lemma_repeated_ticks_drain(s: Seq<EntryModel>, t: int, cap: nat, k: nat)
    ensures
        expired_count(sweep_iter(s, t, cap, k), t) == if expired_count(s, t) >= k * cap {
            expired_count(s, t) - k * cap
        } else {
            0
        },
    decreases k,
{
    if k == 0 {
        assert(k * cap == 0) by (nonlinear_arith)
            requires
                k == 0,
        ;
    } else {
        let e = expired_count(s, t);
        let s1 = sweep_spec(s, t, cap);
        lemma_sweep_counts(s, t, cap);
        let e1 = expired_count(s1, t);
        let km1 = (k - 1) as nat;
        lemma_repeated_ticks_drain(s1, t, cap, km1);
        assert(k * cap == km1 * cap + cap) by (nonlinear_arith)
            requires
                k >= 1,
                km1 == k - 1,
        ;
        assert(sweep_iter(s, t, cap, k) == sweep_iter(s1, t, cap, km1));
        if e >= cap {
            assert(e1 == e - cap);
            if e1 >= km1 * cap {
                assert(e >= k * cap);
                assert(expired_count(sweep_iter(s1, t, cap, km1), t) == e1 - km1 * cap);
            } else {
                assert(e < k * cap);
                assert(expired_count(sweep_iter(s1, t, cap, km1), t) == 0);
            }
        } else {
            assert(e1 == 0);
            assert(k * cap >= cap) by (nonlinear_arith)
                requires
                    k >= 1,
                    cap >= 0,
            ;
            assert(e < k * cap);
            assert(expired_count(sweep_iter(s1, t, cap, km1), t) == 0);
        }
    }
}

/// The whole lifecycle over the model: a never-seen key misses; completing
/// the miss at `now` records the payload, and the key hits from then on; once
/// the TTL has passed at `sweep_now` and the batch cap covers the eligible
/// entries, one tick deletes the entry, and the key misses again — a further
/// lookup goes back to the upstream.
pub proof fn lemma_lifecycle(
    s: Seq<EntryModel>,
    k: Seq<char>,
    body: Seq<char>,
    now: int,
    sweep_now: int,
    ttl: int,
)
    requires
        unique_keys(s),
        !is_blank(k),
        !contains_key(s, k),
        json_well_formed(body),
        now <= sweep_now - ttl,
        expired_count(complete_spec(s, k, 200, body, now).0, sweep_now - ttl)
            <= SWEEP_BATCH_CAP as nat,
    ensures
        probe_spec(s, k) == ProbeModel::Miss,
        probe_spec(complete_spec(s, k, 200, body, now).0, k) == ProbeModel::Hit(body),
        !contains_key(
            sweep_spec(
                complete_spec(s, k, 200, body, now).0,
                sweep_now - ttl,
                SWEEP_BATCH_CAP as nat,
            ),
            k,
        ),
        probe_spec(
            sweep_spec(
                complete_spec(s, k, 200, body, now).0,
                sweep_now - ttl,
                SWEEP_BATCH_CAP as nat,
            ),
            k,
        ) == ProbeModel::Miss,
{
    lemma_miss_then_hit(s, k, body, now);
    let s1 = complete_spec(s, k, 200, body, now).0;
    lemma_tick_deletes_expired(s1, k, sweep_now - ttl, SWEEP_BATCH_CAP as nat);
}

/// Enough ticks clear every eligible entry.
pub proof fn lemma_ticks_clear_all(s: Seq<EntryModel>, t: int, cap: nat, k: nat)
    requires
        k * cap >= expired_count(s, t),
    ensures
        expired_count(sweep_iter(s, t, cap, k), t) == 0,
{
    lemma_repeated_ticks_drain(s, t, cap, k);
}

} // verus!
