//! The cache entry model and the in-core image of the storage table.
//!
//! One row per distinct key: the key, the payload kept verbatim, and the
//! insertion timestamp. The store's invariant is key uniqueness; reads are
//! effect-free, an entry is written once and never updated, and only the
//! sweeper removes entries.

use vstd::prelude::*;

verus! {

/// The mathematical image of one cache entry.
#[verifier::ext_equal]
pub struct EntryModel {
    pub key: Seq<char>,
    pub payload: Seq<char>,
    pub created_at: int,
}

/// One stored row: a looked-up key, the payload exactly as the upstream
/// returned it, and the time (seconds since epoch) at which it was inserted.
pub struct CacheEntry {
    pub key: String,
    pub payload: String,
    pub created_at: i64,
}

impl View for CacheEntry {
    type V = EntryModel;

    open spec fn view(&self) -> EntryModel {
        EntryModel { key: self.key@, payload: self.payload@, created_at: self.created_at as int }
    }
}

/// The image of a row sequence.
pub open spec fn models(rows: Seq<CacheEntry>) -> Seq<EntryModel> {
    Seq::new(rows.len(), |i: int| rows[i]@)
}

/// No two entries share a key.
pub open spec fn unique_keys(s: Seq<EntryModel>) -> bool {
    forall|i: int, j: int| 0 <= i < j < s.len() ==> s[i].key != s[j].key
}

/// The first index holding `k`, or `-1` when no entry does.
pub open spec fn key_idx(s: Seq<EntryModel>, k: Seq<char>) -> int
    decreases s.len(),
{
    if s.len() == 0 {
        -1
    } else if s[0].key == k {
        0
    } else if key_idx(s.drop_first(), k) == -1 {
        -1
    } else {
        key_idx(s.drop_first(), k) + 1
    }
}

/// Whether some entry holds `k`.
pub open spec fn contains_key(s: Seq<EntryModel>, k: Seq<char>) -> bool {
    key_idx(s, k) >= 0
}

/// The entry holding `k` (meaningful only when `contains_key`).
pub open spec fn entry_of(s: Seq<EntryModel>, k: Seq<char>) -> EntryModel {
    s[key_idx(s, k)]
}

/// `key_idx` is the first index whose entry holds `k`, and `-1` exactly when
/// no entry does.
pub proof fn lemma_key_idx(s: Seq<EntryModel>, k: Seq<char>)
    ensures
        key_idx(s, k) >= 0 ==> {
            &&& 0 <= key_idx(s, k) < s.len()
            &&& s[key_idx(s, k)].key == k
            &&& forall|j: int| 0 <= j < key_idx(s, k) ==> s[j].key != k
        },
        key_idx(s, k) == -1 ==> forall|j: int| 0 <= j < s.len() ==> s[j].key != k,
        key_idx(s, k) >= 0 || key_idx(s, k) == -1,
    decreases s.len(),
{
    if s.len() > 0 && s[0].key != k {
        lemma_key_idx(s.drop_first(), k);
        assert(forall|j: int| 1 <= j < s.len() ==> s[j] == s.drop_first()[j - 1]);
    }
}

/// In a store with unique keys, any member entry holding `k` is the entry
/// that `entry_of` names.
pub proof fn lemma_entry_of_member(s: Seq<EntryModel>, k: Seq<char>, i: int)
    requires
        unique_keys(s),
        0 <= i < s.len(),
        s[i].key == k,
    ensures
        contains_key(s, k),
        key_idx(s, k) == i,
        entry_of(s, k) == s[i],
{
    lemma_key_idx(s, k);
    if key_idx(s, k) != i {
        let w = key_idx(s, k);
        assert(0 <= w < s.len() && s[w].key == k);
        if w < i {
            assert(s[w].key != s[i].key);
        } else {
            assert(s[i].key != s[w].key);
        }
    }
}

/// What one bounded sweep leaves behind: scanning from the front, the first
/// `cap` entries dated at or before `t` are dropped and every other entry
/// stays, in order.
pub open spec fn sweep_spec(s: Seq<EntryModel>, t: int, cap: nat) -> Seq<EntryModel>
    decreases s.len(),
{
    if s.len() == 0 || cap == 0 {
        s
    } else if s[0].created_at <= t {
        sweep_spec(s.drop_first(), t, (cap - 1) as nat)
    } else {
        seq![s[0]] + sweep_spec(s.drop_first(), t, cap)
    }
}

/// How many entries are dated at or before `t`.
pub open spec fn expired_count(s: Seq<EntryModel>, t: int) -> nat
    decreases s.len(),
{
    if s.len() == 0 {
        0
    } else {
        (if s[0].created_at <= t {
            1nat
        } else {
            0nat
        }) + expired_count(s.drop_first(), t)
    }
}

/// The smaller of two counts.
pub open spec fn min_nat(a: nat, b: nat) -> nat {
    if a <= b {
        a
    } else {
        b
    }
}

/// A sweep only ever removes entries: every survivor was already present.
pub proof fn lemma_sweep_subset(s: Seq<EntryModel>, t: int, cap: nat)
    ensures
        forall|e: EntryModel| #[trigger] sweep_spec(s, t, cap).contains(e) ==> s.contains(e),
    decreases s.len(),
{
    if s.len() == 0 || cap == 0 {
    } else {
        let rest = s.drop_first();
        let res = sweep_spec(s, t, cap);
        assert forall|e: EntryModel| #[trigger] res.contains(e) implies s.contains(e) by {
            if s[0].created_at <= t {
                lemma_sweep_subset(rest, t, (cap - 1) as nat);
                assert(sweep_spec(rest, t, (cap - 1) as nat).contains(e));
                let i = choose|i: int| 0 <= i < rest.len() && rest[i] == e;
                assert(s[i + 1] == e);
            } else {
                let sub = sweep_spec(rest, t, cap);
                let i = choose|i: int| 0 <= i < res.len() && res[i] == e;
                if i == 0 {
                    assert(s[0] == e);
                } else {
                    lemma_sweep_subset(rest, t, cap);
                    assert(sub[i - 1] == e);
                    assert(sub.contains(e));
                    let j = choose|j: int| 0 <= j < rest.len() && rest[j] == e;
                    assert(s[j + 1] == e);
                }
            }
        }
    }
}

/// A sweep never touches an entry dated after `t`.
pub proof fn lemma_sweep_keeps_fresh(s: Seq<EntryModel>, t: int, cap: nat)
    ensures
        forall|e: EntryModel|
            s.contains(e) && e.created_at > t ==> #[trigger] sweep_spec(s, t, cap).contains(e),
    decreases s.len(),
{
    if s.len() == 0 || cap == 0 {
    } else {
        let rest = s.drop_first();
        let res = sweep_spec(s, t, cap);
        assert forall|e: EntryModel|
            s.contains(e) && e.created_at > t implies #[trigger] res.contains(e) by {
            let i = choose|i: int| 0 <= i < s.len() && s[i] == e;
            if s[0].created_at <= t {
                lemma_sweep_keeps_fresh(rest, t, (cap - 1) as nat);
                assert(i >= 1);
                assert(rest[i - 1] == e);
                assert(rest.contains(e));
                assert(sweep_spec(rest, t, (cap - 1) as nat).contains(e));
            } else {
                let sub = sweep_spec(rest, t, cap);
                if i == 0 {
                    assert(res[0] == e);
                } else {
                    lemma_sweep_keeps_fresh(rest, t, cap);
                    assert(rest[i - 1] == e);
                    assert(rest.contains(e));
                    assert(sub.contains(e));
                    let j = choose|j: int| 0 <= j < sub.len() && sub[j] == e;
                    assert(res[j + 1] == e);
                }
            }
        }
    }
}

/// A sweep preserves key uniqueness.
pub proof fn lemma_sweep_wf(s: Seq<EntryModel>, t: int, cap: nat)
    requires
        unique_keys(s),
    ensures
        unique_keys(sweep_spec(s, t, cap)),
    decreases s.len(),
{
    if s.len() == 0 || cap == 0 {
    } else {
        let rest = s.drop_first();
        assert(forall|i: int| 0 <= i < rest.len() ==> rest[i] == s[i + 1]);
        assert(unique_keys(rest));
        if s[0].created_at <= t {
            lemma_sweep_wf(rest, t, (cap - 1) as nat);
        } else {
            lemma_sweep_wf(rest, t, cap);
            lemma_sweep_subset(rest, t, cap);
            let sub = sweep_spec(rest, t, cap);
            let res = sweep_spec(s, t, cap);
            assert forall|i: int, j: int| 0 <= i < j < res.len() implies res[i].key
                != res[j].key by {
                if i == 0 {
                    assert(res[j] == sub[j - 1]);
                    assert(sub.contains(sub[j - 1]));
                    assert(rest.contains(sub[j - 1]));
                    let w = choose|w: int| 0 <= w < rest.len() && rest[w] == sub[j - 1];
                    assert(s[w + 1] == sub[j - 1]);
                    assert(s[0].key != s[w + 1].key);
                } else {
                    assert(res[i] == sub[i - 1] && res[j] == sub[j - 1]);
                }
            }
        }
    }
}

/// A sweep deletes exactly `min(cap, expired)` entries, all of them expired.
pub proof fn lemma_sweep_counts(s: Seq<EntryModel>, t: int, cap: nat)
    ensures
        sweep_spec(s, t, cap).len() == s.len() - min_nat(cap, expired_count(s, t)),
        expired_count(sweep_spec(s, t, cap), t) == expired_count(s, t) - min_nat(
            cap,
            expired_count(s, t),
        ),
    decreases s.len(),
{
    if s.len() == 0 || cap == 0 {
    } else {
        let rest = s.drop_first();
        if s[0].created_at <= t {
            lemma_sweep_counts(rest, t, (cap - 1) as nat);
        } else {
            lemma_sweep_counts(rest, t, cap);
            let sub = sweep_spec(rest, t, cap);
            let res = sweep_spec(s, t, cap);
            assert(res =~= seq![s[0]] + sub);
            assert(res.len() == 1 + sub.len());
            assert(res.drop_first() =~= sub);
            assert(expired_count(res, t) == expired_count(sub, t));
        }
    }
}

/// When nothing counts as expired, every entry is dated after `t`.
pub proof fn lemma_expired_count_zero(s: Seq<EntryModel>, t: int)
    requires
        expired_count(s, t) == 0,
    ensures
        forall|i: int| 0 <= i < s.len() ==> s[i].created_at > t,
    decreases s.len(),
{
    if s.len() > 0 {
        lemma_expired_count_zero(s.drop_first(), t);
        assert(forall|i: int| 1 <= i < s.len() ==> s[i] == s.drop_first()[i - 1]);
    }
}

/// The in-core image of the countries table.
pub struct CacheStore {
    entries: Vec<CacheEntry>,
}

impl View for CacheStore {
    type V = Seq<EntryModel>;

    closed spec fn view(&self) -> Seq<EntryModel> {
        models(self.entries@)
    }
}

impl CacheStore {
    /// The store invariant: at most one entry per key.
    pub open spec fn wf(&self) -> bool {
        unique_keys(self@)
    }

    /// An empty store.
    pub fn new() -> (s: CacheStore)
        ensures
            s@ == Seq::<EntryModel>::empty(),
            s.wf(),
    {
        let s = CacheStore { entries: Vec::new() };
        proof {
            assert(s@ =~= Seq::<EntryModel>::empty());
        }
        s
    }

    /// How many entries the store holds.
    pub fn len(&self) -> (n: usize)
        ensures
            n == self@.len(),
    {
        self.entries.len()
    }

    /// An effect-free read: the entry under `key`, if any.
    pub fn get(&self, key: &String) -> (r: Option<&CacheEntry>)
        requires
            self.wf(),
        ensures
            match r {
                Some(e) => contains_key(self@, key@) && e@ == entry_of(self@, key@),
                None => !contains_key(self@, key@),
            },
    {
        let ghost s = self@;
        let n = self.entries.len();
        let mut i: usize = 0;
        while i < n
            invariant
                self.wf(),
                s == self@,
                n == s.len(),
                i <= n,
                forall|j: int| 0 <= j < i ==> s[j].key != key@,
            decreases n - i,
        {
            if self.entries[i].key == *key {
                proof {
                    lemma_entry_of_member(s, key@, i as int);
                }
                return Some(&self.entries[i]);
            }
            i += 1;
        }
        proof {
            lemma_key_idx(s, key@);
            if key_idx(s, key@) >= 0 {
                assert(s[key_idx(s, key@)].key == key@);
            }
        }
        None
    }

    /// Deletes up to `cap` entries whose `created_at` is at or before
    /// `threshold`, scanning from the front; everything else stays, in order.
    pub fn sweep_batch(&mut self, threshold: i64, cap: usize) -> (deleted: usize)
        requires
            old(self).wf(),
        ensures
            final(self)@ == sweep_spec(old(self)@, threshold as int, cap as nat),
            deleted == old(self)@.len() - final(self)@.len(),
            deleted == min_nat(cap as nat, expired_count(old(self)@, threshold as int)),
            final(self).wf(),
    {
        let ghost orig = self@;
        let ghost t = threshold as int;
        let mut source: Vec<CacheEntry> = Vec::new();
        core::mem::swap(&mut self.entries, &mut source);
        let mut budget: usize = cap;
        let mut deleted: usize = 0;
        proof {
            assert(models(self.entries@) =~= Seq::<EntryModel>::empty());
            assert(models(source@) =~= orig);
            assert(models(self.entries@) + sweep_spec(models(source@), t, budget as nat)
                =~= sweep_spec(orig, t, cap as nat));
        }
        while source.len() > 0
            invariant
                t == threshold as int,
                budget <= cap,
                deleted == cap - budget,
                orig.len() == models(self.entries@).len() + deleted + models(source@).len(),
                models(self.entries@) + sweep_spec(models(source@), t, budget as nat)
                    == sweep_spec(orig, t, cap as nat),
            decreases source.len(),
        {
            let ghost pre_src = models(source@);
            let ghost pre_kept = models(self.entries@);
            let e = source.remove(0);
            proof {
                assert(models(source@) =~= pre_src.drop_first());
                assert(e@ == pre_src[0]);
            }
            if budget > 0 && e.created_at <= threshold {
                budget -= 1;
                deleted += 1;
            } else {
                let ghost b = budget as nat;
                let expired_kept = e.created_at <= threshold;
                self.entries.push(e);
                proof {
                    assert(models(self.entries@) =~= pre_kept.push(pre_src[0]));
                    if expired_kept {
                        assert(sweep_spec(pre_src, t, b) == pre_src);
                        assert(sweep_spec(pre_src.drop_first(), t, b) == pre_src.drop_first());
                        assert(pre_kept + pre_src
                            =~= pre_kept.push(pre_src[0]) + pre_src.drop_first());
                    } else {
                        assert(sweep_spec(pre_src, t, b)
                            == seq![pre_src[0]] + sweep_spec(pre_src.drop_first(), t, b));
                        assert(pre_kept + (seq![pre_src[0]] + sweep_spec(
                            pre_src.drop_first(),
                            t,
                            b,
                        )) =~= pre_kept.push(pre_src[0]) + sweep_spec(
                            pre_src.drop_first(),
                            t,
                            b,
                        ));
                    }
                }
            }
        }
        proof {
            assert(models(source@).len() == 0);
            assert(sweep_spec(models(source@), t, budget as nat) == models(source@));
            assert(models(self.entries@) + models(source@) =~= models(self.entries@));
            lemma_sweep_wf(orig, t, cap as nat);
            lemma_sweep_counts(orig, t, cap as nat);
        }
        deleted
    }

    /// Writes a fresh entry; the caller has seen that the key is absent.
    pub fn insert(&mut self, entry: CacheEntry)
        requires
            old(self).wf(),
            !contains_key(old(self)@, entry@.key),
        ensures
            final(self)@ == old(self)@.push(entry@),
            final(self).wf(),
    {
        let ghost s = self@;
        let ghost e = entry@;
        self.entries.push(entry);
        proof {
            assert(self@ =~= s.push(e));
            lemma_key_idx(s, e.key);
            assert forall|i: int, j: int| 0 <= i < j < self@.len() implies self@[i].key
                != self@[j].key by {
                if j == s.len() {
                    assert(s[i].key != e.key);
                }
            }
        }
    }
}

} // verus!
