//! The per-topic sample cache: a time-ordered map from [`Timestamp`] to
//! [`CacheChange`] ([`DDSHistoryCache`]), the per-topic container around it
//! ([`TopicCache`]), and the process-wide registry of topics ([`DDSCache`]).
//!
//! The history is kept as a vector sorted strictly ascending by timestamp,
//! so every key occurs at most once and range scans come back in time order.

use vstd::prelude::*;
use vstd::slice::{slice_index_get, slice_subrange};
use crate::cache_change::{CacheChange, ChangeKind, TopicKind, spec_payload_legal};
use crate::qos::{QosPolicies, spec_qos_none};
use crate::time::Timestamp;
use crate::typedesc::TypeDesc;

verus! {

/// Strictly ascending timestamps: the sortedness half of the cache's
/// well-formedness.
pub open spec fn spec_sorted(s: Seq<(Timestamp, CacheChange)>) -> bool {
    forall|i: int, j: int| 0 <= i < j < s.len() ==> s[i].0.ticks < s[j].0.ticks
}

/// Whether the history holds an entry at key `ts`.
pub open spec fn spec_contains_key(s: Seq<(Timestamp, CacheChange)>, ts: Timestamp) -> bool {
    exists|i: int| 0 <= i < s.len() && s[i].0 == ts
}

/// Index of the entry at key `ts`; meaningful when the key is present.
pub open spec fn spec_key_index(s: Seq<(Timestamp, CacheChange)>, ts: Timestamp) -> int {
    choose|i: int| 0 <= i < s.len() && s[i].0 == ts
}

/// The change stored at key `ts`; meaningful when the key is present.
pub open spec fn spec_change_at(s: Seq<(Timestamp, CacheChange)>, ts: Timestamp) -> CacheChange {
    s[spec_key_index(s, ts)].1
}

/// `post` is `pre` with `(ts, c)` inserted at some position.
pub open spec fn spec_history_insert_post(
    pre: Seq<(Timestamp, CacheChange)>,
    post: Seq<(Timestamp, CacheChange)>,
    ts: Timestamp,
    c: CacheChange,
) -> bool {
    exists|i: int| 0 <= i <= pre.len() && post == pre.insert(i, (ts, c))
}

/// In a sorted history two entries with the same key are the same entry.
pub proof fn lemma_sorted_key_unique(s: Seq<(Timestamp, CacheChange)>, i: int, j: int)
    requires
        spec_sorted(s),
        0 <= i < s.len(),
        0 <= j < s.len(),
        s[i].0 == s[j].0,
    ensures
        i == j,
{
    if i < j {
        assert(s[i].0.ticks < s[j].0.ticks);
    } else if j < i {
        assert(s[j].0.ticks < s[i].0.ticks);
    }
}

/// The time-ordered map of changes inside one topic's cache.
#[derive(Debug)]
pub struct DDSHistoryCache {
    changes: Vec<(Timestamp, CacheChange)>,
}

impl View for DDSHistoryCache {
    type V = Seq<(Timestamp, CacheChange)>;

    closed spec fn view(&self) -> Seq<(Timestamp, CacheChange)> {
        self.changes@
    }
}

impl DDSHistoryCache {
    /// Keys strictly ascending, hence pairwise distinct.
    pub open spec fn wf(&self) -> bool {
        spec_sorted(self@)
    }

    pub fn new() -> (h: DDSHistoryCache)
        ensures
            h@.len() == 0,
            h.wf(),
    {
        DDSHistoryCache { changes: Vec::new() }
    }

    /// Inserts `cache_change` at key `instant`. The caller guarantees the
    /// key is fresh; a collision would silently overwrite a sample, so the
    /// contract forbids it.
    pub fn add_change(&mut self, instant: &Timestamp, cache_change: CacheChange)
        requires
            old(self).wf(),
            !spec_contains_key(old(self)@, *instant),
        ensures
            final(self).wf(),
            final(self)@.len() == old(self)@.len() + 1,
            spec_history_insert_post(old(self)@, final(self)@, *instant, cache_change),
            spec_contains_key(final(self)@, *instant),
            spec_change_at(final(self)@, *instant) == cache_change,
            forall|ts: Timestamp|
                spec_contains_key(old(self)@, ts) ==> #[trigger] spec_contains_key(
                    final(self)@,
                    ts,
                ),
    {
        let mut i: usize = 0;
        while i < self.changes.len() && self.changes[i].0.ticks < instant.ticks
            invariant
                i <= self.changes.len(),
                forall|k: int| 0 <= k < i ==> self.changes@[k].0.ticks < instant.ticks,
            decreases self.changes.len() - i,
        {
            i = i + 1;
        }
        proof {
            if i < self.changes@.len() {
                // the scan stopped on a strictly later key: equality is
                // excluded because the key is fresh
                assert(self.changes@[i as int].0.ticks >= instant.ticks);
                assert(self.changes@[i as int].0 != *instant);
                assert(self.changes@[i as int].0.ticks > instant.ticks);
            }
        }
        let ghost pre = self.changes@;
        let ghost pos = i as int;
        self.changes.insert(i, (*instant, cache_change));
        proof {
            let post = self.changes@;
            assert(post == pre.insert(pos, (*instant, cache_change)));
            assert forall|a: int, b: int| 0 <= a < b < post.len() implies post[a].0.ticks
                < post[b].0.ticks by {
                if a < pos && b < pos {
                } else if a < pos && b == pos {
                } else if a == pos && b > pos {
                    assert(post[b] == pre[b - 1]);
                    assert(pre[b - 1].0.ticks >= pre[pos].0.ticks || b - 1 == pos);
                } else if a < pos && b > pos {
                } else {
                }
            }
            assert(post[pos] == (*instant, cache_change));
            assert(spec_contains_key(post, *instant));
            assert forall|j: int| 0 <= j < post.len() && post[j].0 == *instant implies j
                == pos by {
                if j < pos {
                    assert(post[j] == pre[j]);
                } else if j > pos {
                    assert(post[j] == pre[j - 1]);
                }
            }
            assert(spec_change_at(post, *instant) == cache_change);
            assert forall|ts: Timestamp| spec_contains_key(pre, ts) implies #[trigger]
                spec_contains_key(post, ts) by {
                let k = choose|k: int| 0 <= k < pre.len() && pre[k].0 == ts;
                if k < pos {
                    assert(post[k] == pre[k]);
                } else {
                    assert(post[k + 1] == pre[k]);
                }
            }
        }
    }

    pub fn get_all_changes(&self) -> (r: &Vec<(Timestamp, CacheChange)>)
        ensures
            r@ == self@,
    {
        &self.changes
    }

    pub fn get_change(&self, instant: &Timestamp) -> (r: Option<&CacheChange>)
        requires
            self.wf(),
        ensures
            match r {
                Some(c) => spec_contains_key(self@, *instant) && *c == spec_change_at(
                    self@,
                    *instant,
                ),
                None => !spec_contains_key(self@, *instant),
            },
    {
        let mut i: usize = 0;
        while i < self.changes.len()
            invariant
                self.wf(),
                i <= self.changes.len(),
                forall|k: int| 0 <= k < i ==> self.changes@[k].0 != *instant,
            decreases self.changes.len() - i,
        {
            let entry = slice_index_get(self.changes.as_slice(), i);
            if entry.0.ticks == instant.ticks {
                proof {
                    assert(self.changes@[i as int].0 == *instant);
                    assert(spec_contains_key(self@, *instant));
                    assert forall|j: int|
                        0 <= j < self@.len() && self@[j].0 == *instant implies j == i as int by {
                        lemma_sorted_key_unique(self@, i as int, j);
                    }
                    assert(spec_key_index(self@, *instant) == i as int);
                }
                return Some(&entry.1);
            }
            i = i + 1;
        }
        None
    }

    /// All changes with key in the half-open window `(start, end]`, in
    /// ascending timestamp order, as a borrowed slice of the history.
    pub fn get_range_of_changes(
        &self,
        start_instant: &Timestamp,
        end_instant: &Timestamp,
    ) -> (r: &[(Timestamp, CacheChange)])
        requires
            self.wf(),
        ensures
            forall|k: int|
                0 <= k < r@.len() ==> start_instant.ticks < #[trigger] r@[k].0.ticks
                    <= end_instant.ticks,
            forall|i: int|
                0 <= i < self@.len() && start_instant.ticks < #[trigger] self@[i].0.ticks
                    <= end_instant.ticks ==> r@.contains(self@[i]),
            forall|k: int| 0 <= k < r@.len() ==> self@.contains(#[trigger] r@[k]),
            forall|k1: int, k2: int| 0 <= k1 < k2 < r@.len() ==> r@[k1].0.ticks < r@[k2].0.ticks,
            exists|lo: int, hi: int|
                0 <= lo <= hi <= self@.len() && r@ == self@.subrange(lo, hi),
    {
        let n = self.changes.len();
        let mut lo: usize = 0;
        while lo < n && self.changes[lo].0.ticks <= start_instant.ticks
            invariant
                lo <= n,
                n == self.changes.len(),
                forall|k: int| 0 <= k < lo ==> self.changes@[k].0.ticks <= start_instant.ticks,
            decreases n - lo,
        {
            lo = lo + 1;
        }
        let mut hi: usize = lo;
        while hi < n && self.changes[hi].0.ticks <= end_instant.ticks
            invariant
                lo <= hi <= n,
                n == self.changes.len(),
                forall|k: int| lo <= k < hi ==> self.changes@[k].0.ticks <= end_instant.ticks,
            decreases n - hi,
        {
            hi = hi + 1;
        }
        let r = slice_subrange(self.changes.as_slice(), lo, hi);
        proof {
            let s = self@;
            assert forall|k: int|
                0 <= k < r@.len() implies start_instant.ticks < #[trigger] r@[k].0.ticks
                <= end_instant.ticks by {
                assert(r@[k] == s[lo + k]);
                if lo < s.len() {
                    assert(s[lo as int].0.ticks > start_instant.ticks);
                    if lo + k > lo {
                        assert(s[lo as int].0.ticks < s[lo + k].0.ticks);
                    }
                }
            }
            assert forall|i: int|
                0 <= i < s.len() && start_instant.ticks < #[trigger] s[i].0.ticks
                    <= end_instant.ticks implies r@.contains(s[i]) by {
                if i < lo {
                    assert(s[i].0.ticks <= start_instant.ticks);
                }
                if i >= hi {
                    if hi < s.len() {
                        assert(s[hi as int].0.ticks > end_instant.ticks);
                        if i > hi {
                            assert(s[hi as int].0.ticks < s[i].0.ticks);
                        }
                    }
                }
                assert(lo <= i < hi);
                assert(r@[i - lo] == s[i]);
            }
            assert forall|k: int| 0 <= k < r@.len() implies s.contains(#[trigger] r@[k]) by {
                assert(r@[k] == s[lo + k]);
            }
        }
        r
    }

    /// Same window, same order, kept beside [`Self::get_range_of_changes`]
    /// for callers that name the vector-shaped accessor.
    pub fn get_range_of_changes_vec(
        &self,
        start_instant: &Timestamp,
        end_instant: &Timestamp,
    ) -> (r: &[(Timestamp, CacheChange)])
        requires
            self.wf(),
        ensures
            forall|k: int|
                0 <= k < r@.len() ==> start_instant.ticks < #[trigger] r@[k].0.ticks
                    <= end_instant.ticks,
            forall|i: int|
                0 <= i < self@.len() && start_instant.ticks < #[trigger] self@[i].0.ticks
                    <= end_instant.ticks ==> r@.contains(self@[i]),
            forall|k: int| 0 <= k < r@.len() ==> self@.contains(#[trigger] r@[k]),
            forall|k1: int, k2: int| 0 <= k1 < k2 < r@.len() ==> r@[k1].0.ticks < r@[k2].0.ticks,
    {
        self.get_range_of_changes(start_instant, end_instant)
    }

    /// Rewrites the kind of the change at `instant`, which must be present;
    /// everything else is untouched.
    pub fn change_change_kind(&mut self, instant: &Timestamp, change_kind: ChangeKind)
        requires
            old(self).wf(),
            spec_contains_key(old(self)@, *instant),
        ensures
            final(self).wf(),
            final(self)@.len() == old(self)@.len(),
            forall|k: int|
                0 <= k < final(self)@.len() && old(self)@[k].0 != *instant ==> final(self)@[k]
                    == old(self)@[k],
            forall|k: int|
                0 <= k < final(self)@.len() && old(self)@[k].0 == *instant ==> final(self)@[k]
                    == (old(self)@[k].0, (CacheChange { kind: change_kind, ..old(self)@[k].1 })),
    {
        let ghost pre = self@;
        let mut i: usize = 0;
        while i < self.changes.len() && self.changes[i].0.ticks != instant.ticks
            invariant
                i <= self.changes.len(),
                self.changes@ == pre,
                forall|k: int| 0 <= k < i ==> self.changes@[k].0 != *instant,
            decreases self.changes.len() - i,
        {
            i = i + 1;
        }
        proof {
            let w = choose|w: int| 0 <= w < pre.len() && pre[w].0 == *instant;
            assert(i < self.changes.len());
            assert(pre[i as int].0 == *instant);
        }
        let mut entry = self.changes.remove(i);
        entry.1.kind = change_kind;
        let ghost updated = entry;
        self.changes.insert(i, entry);
        proof {
            let post = self.changes@;
            assert(post =~= pre.update(i as int, updated));
            assert forall|k: int|
                0 <= k < post.len() && pre[k].0 == *instant implies post[k] == (
            pre[k].0,
            (CacheChange { kind: change_kind, ..pre[k].1 }),
            ) by {
                if k != i {
                    // two entries cannot share the key: sortedness separates
                    // their tick values
                    assert(pre[k].0.ticks == pre[i as int].0.ticks);
                    if k < i {
                        assert(pre[k].0.ticks < pre[i as int].0.ticks);
                    } else {
                        assert(pre[i as int].0.ticks < pre[k].0.ticks);
                    }
                }
            }
        }
    }

    /// Removes and returns the change at `instant`, if one is present.
    pub fn remove_change(&mut self, instant: &Timestamp) -> (r: Option<CacheChange>)
        requires
            old(self).wf(),
        ensures
            final(self).wf(),
            match r {
                Some(c) => {
                    &&& spec_contains_key(old(self)@, *instant)
                    &&& c == spec_change_at(old(self)@, *instant)
                    &&& final(self)@ == old(self)@.remove(spec_key_index(old(self)@, *instant))
                    &&& !spec_contains_key(final(self)@, *instant)
                },
                None => final(self)@ == old(self)@ && !spec_contains_key(old(self)@, *instant),
            },
    {
        let ghost pre = self@;
        let mut i: usize = 0;
        while i < self.changes.len() && self.changes[i].0.ticks != instant.ticks
            invariant
                i <= self.changes.len(),
                self.changes@ == pre,
                forall|k: int| 0 <= k < i ==> self.changes@[k].0 != *instant,
            decreases self.changes.len() - i,
        {
            i = i + 1;
        }
        if i == self.changes.len() {
            return None;
        }
        proof {
            assert(pre[i as int].0 == *instant);
            assert forall|j: int| 0 <= j < pre.len() && pre[j].0 == *instant implies j
                == i as int by {
                if j != i {
                    if j < i {
                        assert(pre[j].0.ticks < pre[i as int].0.ticks);
                    } else {
                        assert(pre[i as int].0.ticks < pre[j].0.ticks);
                    }
                }
            }
            assert(spec_key_index(pre, *instant) == i as int);
        }
        let entry = self.changes.remove(i);
        proof {
            let post = self.changes@;
            assert forall|j: int| 0 <= j < post.len() implies post[j].0 != *instant by {
                if j < i {
                    assert(post[j] == pre[j]);
                } else {
                    assert(post[j] == pre[j + 1]);
                }
            }
        }
        Some(entry.1)
    }
}

/// Law: in a well-formed history, every `(timestamp, change)` entry sits
/// under a key that no other entry shares.
pub proof fn lemma_unique_insertion(h: &DDSHistoryCache)
    requires
        h.wf(),
    ensures
        forall|i: int, j: int| 0 <= i < j < h@.len() ==> h@[i].0 != h@[j].0,
{
}

/// Law: in a well-formed cache, for every topic all `(timestamp, change)`
/// keys are pairwise distinct.
pub proof fn lemma_unique_insertion_per_topic(c: &DDSCache)
    requires
        c.wf(),
    ensures
        forall|t: int, i: int, j: int|
            0 <= t < c@.len() && 0 <= i < j < c@[t].1.history_cache@.len() ==> #[trigger] c@[t].1.history_cache@[i].0
                != #[trigger] c@[t].1.history_cache@[j].0,
{
    assert forall|t: int, i: int, j: int|
        0 <= t < c@.len() && 0 <= i < j < c@[t].1.history_cache@.len() implies #[trigger] c@[t].1.history_cache@[i].0
            != #[trigger] c@[t].1.history_cache@[j].0 by {
        assert(c@[t].1.wf());
        assert(c@[t].1.history_cache@[i].0.ticks < c@[t].1.history_cache@[j].0.ticks);
    }
}

/// One topic's cache: the declared data type, the topic kind, the effective
/// QoS and the time-ordered history.
#[derive(Debug)]
pub struct TopicCache {
    pub topic_data_type: TypeDesc,
    pub topic_kind: TopicKind,
    pub topic_qos: QosPolicies,
    pub history_cache: DDSHistoryCache,
}

impl TopicCache {
    pub open spec fn wf(&self) -> bool {
        self.history_cache.wf()
    }

    pub fn new(topic_kind: TopicKind, topic_data_type: TypeDesc) -> (t: TopicCache)
        ensures
            t.wf(),
            t.topic_kind == topic_kind,
            t.topic_data_type@ == topic_data_type@,
            t.topic_qos == spec_qos_none(),
            t.history_cache@.len() == 0,
    {
        TopicCache {
            topic_data_type,
            topic_kind,
            topic_qos: QosPolicies::none(),
            history_cache: DDSHistoryCache::new(),
        }
    }

    pub fn get_change(&self, instant: &Timestamp) -> (r: Option<&CacheChange>)
        requires
            self.wf(),
        ensures
            match r {
                Some(c) => spec_contains_key(self.history_cache@, *instant) && *c
                    == spec_change_at(self.history_cache@, *instant),
                None => !spec_contains_key(self.history_cache@, *instant),
            },
    {
        self.history_cache.get_change(instant)
    }

    /// Inserts at a fresh key; a key-only payload is only legal on a keyed
    /// topic.
    pub fn add_change(&mut self, instant: &Timestamp, cache_change: CacheChange)
        requires
            old(self).wf(),
            !spec_contains_key(old(self).history_cache@, *instant),
            spec_payload_legal(old(self).topic_kind, cache_change.payload),
        ensures
            final(self).wf(),
            final(self).topic_data_type == old(self).topic_data_type,
            final(self).topic_kind == old(self).topic_kind,
            final(self).topic_qos == old(self).topic_qos,
            final(self).history_cache@.len() == old(self).history_cache@.len() + 1,
            spec_history_insert_post(
                old(self).history_cache@,
                final(self).history_cache@,
                *instant,
                cache_change,
            ),
            spec_contains_key(final(self).history_cache@, *instant),
            spec_change_at(final(self).history_cache@, *instant) == cache_change,
    {
        self.history_cache.add_change(instant, cache_change)
    }

    pub fn get_all_changes(&self) -> (r: &Vec<(Timestamp, CacheChange)>)
        ensures
            r@ == self.history_cache@,
    {
        self.history_cache.get_all_changes()
    }

    /// All changes with key in the half-open window `(start, end]`, in
    /// ascending timestamp order.
    pub fn get_changes_in_range(
        &self,
        start_instant: &Timestamp,
        end_instant: &Timestamp,
    ) -> (r: &[(Timestamp, CacheChange)])
        requires
            self.wf(),
        ensures
            forall|k: int|
                0 <= k < r@.len() ==> start_instant.ticks < #[trigger] r@[k].0.ticks
                    <= end_instant.ticks,
            forall|i: int|
                0 <= i < self.history_cache@.len() && start_instant.ticks
                    < #[trigger] self.history_cache@[i].0.ticks <= end_instant.ticks
                    ==> r@.contains(self.history_cache@[i]),
            forall|k: int| 0 <= k < r@.len() ==> self.history_cache@.contains(#[trigger] r@[k]),
            forall|k1: int, k2: int| 0 <= k1 < k2 < r@.len() ==> r@[k1].0.ticks < r@[k2].0.ticks,
    {
        self.history_cache.get_range_of_changes_vec(start_instant, end_instant)
    }

    /// Removes and returns the change at `instant`, if present.
    pub fn remove_change(&mut self, instant: &Timestamp) -> (r: Option<CacheChange>)
        requires
            old(self).wf(),
        ensures
            final(self).wf(),
            final(self).topic_data_type == old(self).topic_data_type,
            final(self).topic_kind == old(self).topic_kind,
            final(self).topic_qos == old(self).topic_qos,
            match r {
                Some(c) => {
                    &&& spec_contains_key(old(self).history_cache@, *instant)
                    &&& c == spec_change_at(old(self).history_cache@, *instant)
                    &&& final(self).history_cache@ == old(self).history_cache@.remove(
                        spec_key_index(old(self).history_cache@, *instant),
                    )
                    &&& !spec_contains_key(final(self).history_cache@, *instant)
                },
                None => final(self).history_cache@ == old(self).history_cache@
                    && !spec_contains_key(old(self).history_cache@, *instant),
            },
    {
        self.history_cache.remove_change(instant)
    }

    /// Marks the change at `instant`, which must be present, as disposed.
    pub fn set_change_to_not_alive_disposed(&mut self, instant: &Timestamp)
        requires
            old(self).wf(),
            spec_contains_key(old(self).history_cache@, *instant),
        ensures
            final(self).wf(),
            final(self).topic_data_type == old(self).topic_data_type,
            final(self).topic_kind == old(self).topic_kind,
            final(self).topic_qos == old(self).topic_qos,
            final(self).history_cache@.len() == old(self).history_cache@.len(),
            forall|k: int|
                0 <= k < final(self).history_cache@.len() && old(self).history_cache@[k].0
                    != *instant ==> final(self).history_cache@[k] == old(self).history_cache@[k],
            forall|k: int|
                0 <= k < final(self).history_cache@.len() && old(self).history_cache@[k].0
                    == *instant ==> final(self).history_cache@[k] == (
                old(self).history_cache@[k].0,
                (CacheChange {
                    kind: ChangeKind::NotAliveDisposed,
                    ..old(self).history_cache@[k].1
                }),
                ),
    {
        self.history_cache.change_change_kind(instant, ChangeKind::NotAliveDisposed)
    }
}

/// No two entries in the topic registry share a name.
pub open spec fn spec_names_unique(s: Seq<(String, TopicCache)>) -> bool {
    forall|i: int, j: int| 0 <= i < j < s.len() ==> s[i].0@ != s[j].0@
}

/// Whether the registry holds a topic of this name.
pub open spec fn spec_seq_has_topic(s: Seq<(String, TopicCache)>, name: Seq<char>) -> bool {
    exists|i: int| 0 <= i < s.len() && s[i].0@ == name
}

/// Index of the topic of this name; meaningful when the name is present.
pub open spec fn spec_seq_topic_index(s: Seq<(String, TopicCache)>, name: Seq<char>) -> int {
    choose|i: int| 0 <= i < s.len() && s[i].0@ == name
}

/// With unique names, an entry is the only one under its name.
pub proof fn lemma_topic_index_unique(s: Seq<(String, TopicCache)>, i: int)
    requires
        spec_names_unique(s),
        0 <= i < s.len(),
    ensures
        forall|j: int| 0 <= j < s.len() && s[j].0@ == s[i].0@ ==> j == i,
        spec_seq_topic_index(s, s[i].0@) == i,
{
    assert forall|j: int| 0 <= j < s.len() && s[j].0@ == s[i].0@ implies j == i by {
        if j < i {
            assert(s[j].0@ != s[i].0@);
        } else if j > i {
            assert(s[i].0@ != s[j].0@);
        }
    }
    assert(spec_seq_has_topic(s, s[i].0@));
}

/// What a call of `add_new_topic` does: `r` says whether the name was new,
/// and on a new name the registry grows by exactly one fresh record.
pub open spec fn spec_add_new_topic_post(
    pre: Seq<(String, TopicCache)>,
    post: Seq<(String, TopicCache)>,
    name: Seq<char>,
    kind: TopicKind,
    type_desc: Seq<char>,
    r: bool,
) -> bool {
    &&& r == !spec_seq_has_topic(pre, name)
    &&& if r {
        &&& post.len() == pre.len() + 1
        &&& post.subrange(0, pre.len() as int) == pre
        &&& post[pre.len() as int].0@ == name
        &&& post[pre.len() as int].1.topic_kind == kind
        &&& post[pre.len() as int].1.topic_data_type@ == type_desc
        &&& post[pre.len() as int].1.topic_qos == spec_qos_none()
        &&& post[pre.len() as int].1.history_cache@.len() == 0
    } else {
        post == pre
    }
}

/// The process-wide registry of topic caches, keyed by topic name; names
/// are unique within the domain.
#[derive(Debug)]
pub struct DDSCache {
    topic_caches: Vec<(String, TopicCache)>,
}

impl View for DDSCache {
    type V = Seq<(String, TopicCache)>;

    closed spec fn view(&self) -> Seq<(String, TopicCache)> {
        self.topic_caches@
    }
}

impl DDSCache {
    /// Unique topic names, every topic cache well formed.
    pub open spec fn wf(&self) -> bool {
        &&& spec_names_unique(self@)
        &&& forall|i: int| 0 <= i < self@.len() ==> (#[trigger] self@[i]).1.wf()
    }

    pub open spec fn spec_has_topic(&self, name: Seq<char>) -> bool {
        spec_seq_has_topic(self@, name)
    }

    pub open spec fn spec_topic_index(&self, name: Seq<char>) -> int {
        spec_seq_topic_index(self@, name)
    }

    /// The topic cache under this name; meaningful when the name is present.
    pub open spec fn spec_topic_at(&self, name: Seq<char>) -> TopicCache {
        self@[self.spec_topic_index(name)].1
    }

    pub fn new() -> (c: DDSCache)
        ensures
            c@.len() == 0,
            c.wf(),
    {
        DDSCache { topic_caches: Vec::new() }
    }

    /// Index of the topic of this name, if present.
    fn find_topic_index(&self, topic_name: &String) -> (r: Option<usize>)
        requires
            self.wf(),
        ensures
            match r {
                Some(i) => {
                    &&& self.spec_has_topic(topic_name@)
                    &&& i < self@.len()
                    &&& i == self.spec_topic_index(topic_name@)
                    &&& self@[i as int].0@ == topic_name@
                },
                None => !self.spec_has_topic(topic_name@),
            },
    {
        let mut i: usize = 0;
        while i < self.topic_caches.len()
            invariant
                self.wf(),
                i <= self.topic_caches.len(),
                forall|k: int| 0 <= k < i ==> self.topic_caches@[k].0@ != topic_name@,
            decreases self.topic_caches.len() - i,
        {
            let entry = slice_index_get(self.topic_caches.as_slice(), i);
            if entry.0 == *topic_name {
                proof {
                    lemma_topic_index_unique(self@, i as int);
                }
                return Some(i);
            }
            i = i + 1;
        }
        None
    }

    /// Registers a topic under a fresh name; idempotent by name: a second
    /// registration under the same name returns `false` and changes nothing.
    pub fn add_new_topic(
        &mut self,
        topic_name: &String,
        topic_kind: TopicKind,
        topic_data_type: &TypeDesc,
    ) -> (r: bool)
        requires
            old(self).wf(),
        ensures
            final(self).wf(),
            spec_add_new_topic_post(
                old(self)@,
                final(self)@,
                topic_name@,
                topic_kind,
                topic_data_type@,
                r,
            ),
    {
        if self.find_topic_index(topic_name).is_some() {
            return false;
        }
        let ghost pre = self@;
        self.topic_caches.push(
            (topic_name.clone(), TopicCache::new(topic_kind, topic_data_type.clone())),
        );
        proof {
            let post = self@;
            assert(post.subrange(0, pre.len() as int) =~= pre);
            assert forall|a: int, b: int| 0 <= a < b < post.len() implies post[a].0@
                != post[b].0@ by {
                if b < pre.len() {
                } else {
                    assert(b == pre.len());
                    assert(post[a] == pre[a]);
                    if post[a].0@ == topic_name@ {
                        assert(spec_seq_has_topic(pre, topic_name@));
                    }
                }
            }
        }
        true
    }

    /// Drops the topic of this name, if present.
    pub fn remove_topic(&mut self, topic_name: &String)
        requires
            old(self).wf(),
        ensures
            final(self).wf(),
            !final(self).spec_has_topic(topic_name@),
            old(self).spec_has_topic(topic_name@) ==> final(self)@ == old(self)@.remove(
                old(self).spec_topic_index(topic_name@),
            ),
            !old(self).spec_has_topic(topic_name@) ==> final(self)@ == old(self)@,
    {
        let ghost pre = self@;
        match self.find_topic_index(topic_name) {
            Some(i) => {
                self.topic_caches.remove(i);
                proof {
                    let post = self@;
                    assert forall|j: int| 0 <= j < post.len() implies post[j].0@
                        != topic_name@ by {
                        lemma_topic_index_unique(pre, i as int);
                        if j < i {
                            assert(post[j] == pre[j]);
                        } else {
                            assert(post[j] == pre[j + 1]);
                        }
                    }
                }
            },
            None => (),
        }
    }

    /// The effective QoS of the topic of this name, if present.
    pub fn get_topic_qos(&self, topic_name: &String) -> (r: Option<&QosPolicies>)
        requires
            self.wf(),
        ensures
            match r {
                Some(q) => self.spec_has_topic(topic_name@) && *q == self.spec_topic_at(
                    topic_name@,
                ).topic_qos,
                None => !self.spec_has_topic(topic_name@),
            },
    {
        match self.find_topic_index(topic_name) {
            Some(i) => {
                let entry = slice_index_get(self.topic_caches.as_slice(), i);
                Some(&entry.1.topic_qos)
            },
            None => None,
        }
    }

    /// A mutable handle on the QoS of the topic of this name, if present;
    /// whatever the caller writes through it lands in that topic's record
    /// and nowhere else.
    pub fn get_topic_qos_mut(&mut self, topic_name: &String) -> (r: Option<&mut QosPolicies>)
        requires
            old(self).wf(),
        ensures
            match r {
                Some(q) => {
                    &&& old(self).spec_has_topic(topic_name@)
                    &&& *q == old(self).spec_topic_at(topic_name@).topic_qos
                    &&& final(self).wf()
                    &&& final(self)@.len() == old(self)@.len()
                    &&& forall|k: int|
                        0 <= k < old(self)@.len() && k != old(self).spec_topic_index(topic_name@)
                            ==> final(self)@[k] == old(self)@[k]
                    &&& final(self)@[old(self).spec_topic_index(topic_name@)].0 == old(
                        self,
                    )@[old(self).spec_topic_index(topic_name@)].0
                    &&& final(self)@[old(self).spec_topic_index(topic_name@)].1 == (TopicCache {
                        topic_qos: *final(q),
                        ..old(self)@[old(self).spec_topic_index(topic_name@)].1
                    })
                },
                None => !old(self).spec_has_topic(topic_name@) && *final(self) == *old(self),
            },
    {
        let ghost pre = self@;
        match self.find_topic_index(topic_name) {
            Some(i) => {
                proof {
                    lemma_topic_index_unique(pre, i as int);
                }
                let q = &mut self.topic_caches[i].1.topic_qos;
                Some(q)
            },
            None => None,
        }
    }

    /// Replaces the QoS of the topic of this name; returns whether the
    /// topic was present.
    pub fn set_topic_qos(&mut self, topic_name: &String, qos: QosPolicies) -> (r: bool)
        requires
            old(self).wf(),
        ensures
            final(self).wf(),
            r == old(self).spec_has_topic(topic_name@),
            !r ==> final(self)@ == old(self)@,
            r ==> {
                &&& final(self)@.len() == old(self)@.len()
                &&& forall|k: int|
                    0 <= k < final(self)@.len() && old(self)@[k].0@ != topic_name@
                        ==> final(self)@[k] == old(self)@[k]
                &&& forall|k: int|
                    0 <= k < final(self)@.len() ==> final(self)@[k].0 == old(self)@[k].0
                &&& final(self).spec_has_topic(topic_name@)
                &&& final(self).spec_topic_at(topic_name@) == (TopicCache {
                    topic_qos: qos,
                    ..old(self).spec_topic_at(topic_name@)
                })
            },
    {
        let ghost pre = self@;
        match self.find_topic_index(topic_name) {
            Some(i) => {
                let mut entry = self.topic_caches.remove(i);
                entry.1.topic_qos = qos;
                let ghost updated = entry;
                self.topic_caches.insert(i, entry);
                proof {
                    let post = self@;
                    assert(post =~= pre.update(i as int, updated));
                    lemma_topic_index_unique(pre, i as int);
                    assert forall|a: int, b: int| 0 <= a < b < post.len() implies post[a].0@
                        != post[b].0@ by {
                        assert(post[a].0 == pre[a].0);
                        assert(post[b].0 == pre[b].0);
                    }
                    lemma_topic_index_unique(post, i as int);
                }
                true
            },
            None => false,
        }
    }

    /// Point lookup of the change at `instant` in the topic of this name.
    pub fn from_topic_get_change(
        &self,
        topic_name: &String,
        instant: &Timestamp,
    ) -> (r: Option<&CacheChange>)
        requires
            self.wf(),
        ensures
            match r {
                Some(c) => {
                    &&& self.spec_has_topic(topic_name@)
                    &&& spec_contains_key(
                        self.spec_topic_at(topic_name@).history_cache@,
                        *instant,
                    )
                    &&& *c == spec_change_at(
                        self.spec_topic_at(topic_name@).history_cache@,
                        *instant,
                    )
                },
                None => !self.spec_has_topic(topic_name@) || !spec_contains_key(
                    self.spec_topic_at(topic_name@).history_cache@,
                    *instant,
                ),
            },
    {
        match self.find_topic_index(topic_name) {
            Some(i) => {
                let entry = slice_index_get(self.topic_caches.as_slice(), i);
                entry.1.get_change(instant)
            },
            None => None,
        }
    }

    /// All changes of the topic of this name, ascending by timestamp;
    /// `None` when no such topic is registered.
    pub fn from_topic_get_all_changes(
        &self,
        topic_name: &String,
    ) -> (r: Option<&Vec<(Timestamp, CacheChange)>>)
        requires
            self.wf(),
        ensures
            match r {
                Some(v) => self.spec_has_topic(topic_name@) && v@ == self.spec_topic_at(
                    topic_name@,
                ).history_cache@,
                None => !self.spec_has_topic(topic_name@),
            },
    {
        match self.find_topic_index(topic_name) {
            Some(i) => {
                let entry = slice_index_get(self.topic_caches.as_slice(), i);
                Some(entry.1.get_all_changes())
            },
            None => None,
        }
    }

    /// The changes of the topic of this name with key in the half-open
    /// window `(start, end]`, ascending by timestamp; `None` when no such
    /// topic is registered.
    pub fn from_topic_get_changes_in_range(
        &self,
        topic_name: &String,
        start_instant: &Timestamp,
        end_instant: &Timestamp,
    ) -> (r: Option<&[(Timestamp, CacheChange)]>)
        requires
            self.wf(),
        ensures
            match r {
                Some(v) => {
                    &&& self.spec_has_topic(topic_name@)
                    &&& forall|k: int|
                        0 <= k < v@.len() ==> start_instant.ticks < #[trigger] v@[k].0.ticks
                            <= end_instant.ticks
                    &&& forall|i: int|
                        0 <= i < self.spec_topic_at(topic_name@).history_cache@.len()
                            && start_instant.ticks < #[trigger] self.spec_topic_at(
                            topic_name@,
                        ).history_cache@[i].0.ticks <= end_instant.ticks ==> v@.contains(
                            self.spec_topic_at(topic_name@).history_cache@[i],
                        )
                    &&& forall|k: int|
                        0 <= k < v@.len() ==> self.spec_topic_at(
                            topic_name@,
                        ).history_cache@.contains(#[trigger] v@[k])
                    &&& forall|k1: int, k2: int|
                        0 <= k1 < k2 < v@.len() ==> v@[k1].0.ticks < v@[k2].0.ticks
                },
                None => !self.spec_has_topic(topic_name@),
            },
    {
        match self.find_topic_index(topic_name) {
            Some(i) => {
                let entry = slice_index_get(self.topic_caches.as_slice(), i);
                Some(entry.1.get_changes_in_range(start_instant, end_instant))
            },
            None => None,
        }
    }

    /// Inserts a change at a fresh key into the topic of this name, which
    /// must be registered.
    pub fn to_topic_add_change(
        &mut self,
        topic_name: &String,
        instant: &Timestamp,
        cache_change: CacheChange,
    )
        requires
            old(self).wf(),
            old(self).spec_has_topic(topic_name@),
            !spec_contains_key(old(self).spec_topic_at(topic_name@).history_cache@, *instant),
            spec_payload_legal(
                old(self).spec_topic_at(topic_name@).topic_kind,
                cache_change.payload,
            ),
        ensures
            final(self).wf(),
            final(self)@.len() == old(self)@.len(),
            forall|k: int|
                0 <= k < final(self)@.len() ==> final(self)@[k].0 == old(self)@[k].0,
            forall|k: int|
                0 <= k < final(self)@.len() && old(self)@[k].0@ != topic_name@
                    ==> final(self)@[k] == old(self)@[k],
            final(self).spec_has_topic(topic_name@),
            final(self).spec_topic_at(topic_name@).topic_data_type == old(self).spec_topic_at(
                topic_name@,
            ).topic_data_type,
            final(self).spec_topic_at(topic_name@).topic_kind == old(self).spec_topic_at(
                topic_name@,
            ).topic_kind,
            final(self).spec_topic_at(topic_name@).topic_qos == old(self).spec_topic_at(
                topic_name@,
            ).topic_qos,
            spec_history_insert_post(
                old(self).spec_topic_at(topic_name@).history_cache@,
                final(self).spec_topic_at(topic_name@).history_cache@,
                *instant,
                cache_change,
            ),
            spec_contains_key(final(self).spec_topic_at(topic_name@).history_cache@, *instant),
            spec_change_at(final(self).spec_topic_at(topic_name@).history_cache@, *instant)
                == cache_change,
    {
        let ghost pre = self@;
        match self.find_topic_index(topic_name) {
            Some(i) => {
                let mut entry = self.topic_caches.remove(i);
                entry.1.add_change(instant, cache_change);
                let ghost updated = entry;
                self.topic_caches.insert(i, entry);
                proof {
                    self.lemma_entry_update(pre, updated, i as int, topic_name@);
                }
            },
            None => (),
        }
    }

    /// Marks the change at `instant` in the topic of this name as disposed;
    /// both the topic and the key must be present.
    pub fn from_topic_set_change_to_not_alive_disposed(
        &mut self,
        topic_name: &String,
        instant: &Timestamp,
    )
        requires
            old(self).wf(),
            old(self).spec_has_topic(topic_name@),
            spec_contains_key(old(self).spec_topic_at(topic_name@).history_cache@, *instant),
        ensures
            final(self).wf(),
            final(self)@.len() == old(self)@.len(),
            forall|k: int|
                0 <= k < final(self)@.len() ==> final(self)@[k].0 == old(self)@[k].0,
            forall|k: int|
                0 <= k < final(self)@.len() && old(self)@[k].0@ != topic_name@
                    ==> final(self)@[k] == old(self)@[k],
            final(self).spec_has_topic(topic_name@),
            final(self).spec_topic_at(topic_name@).topic_data_type == old(self).spec_topic_at(
                topic_name@,
            ).topic_data_type,
            final(self).spec_topic_at(topic_name@).topic_kind == old(self).spec_topic_at(
                topic_name@,
            ).topic_kind,
            final(self).spec_topic_at(topic_name@).topic_qos == old(self).spec_topic_at(
                topic_name@,
            ).topic_qos,
            final(self).spec_topic_at(topic_name@).history_cache@.len() == old(self).spec_topic_at(topic_name@).history_cache@.len(),
            forall|k: int|
                0 <= k < final(self).spec_topic_at(topic_name@).history_cache@.len() && old(self).spec_topic_at(topic_name@).history_cache@[k].0 != *instant ==> final(self).spec_topic_at(topic_name@).history_cache@[k] == old(self).spec_topic_at(
                    topic_name@,
                ).history_cache@[k],
            forall|k: int|
                0 <= k < final(self).spec_topic_at(topic_name@).history_cache@.len() && old(self).spec_topic_at(topic_name@).history_cache@[k].0 == *instant ==> final(self).spec_topic_at(topic_name@).history_cache@[k] == (
                old(self).spec_topic_at(topic_name@).history_cache@[k].0,
                (CacheChange {
                    kind: ChangeKind::NotAliveDisposed,
                    ..old(self).spec_topic_at(topic_name@).history_cache@[k].1
                }),
                ),
    {
        let ghost pre = self@;
        match self.find_topic_index(topic_name) {
            Some(i) => {
                let mut entry = self.topic_caches.remove(i);
                entry.1.set_change_to_not_alive_disposed(instant);
                let ghost updated = entry;
                self.topic_caches.insert(i, entry);
                proof {
                    self.lemma_entry_update(pre, updated, i as int, topic_name@);
                }
            },
            None => (),
        }
    }

    /// Removes and returns the change at `instant` from the topic of this
    /// name, which must be registered.
    pub fn from_topic_remove_change(
        &mut self,
        topic_name: &String,
        instant: &Timestamp,
    ) -> (r: Option<CacheChange>)
        requires
            old(self).wf(),
            old(self).spec_has_topic(topic_name@),
        ensures
            final(self).wf(),
            final(self)@.len() == old(self)@.len(),
            forall|k: int|
                0 <= k < final(self)@.len() ==> final(self)@[k].0 == old(self)@[k].0,
            forall|k: int|
                0 <= k < final(self)@.len() && old(self)@[k].0@ != topic_name@
                    ==> final(self)@[k] == old(self)@[k],
            final(self).spec_has_topic(topic_name@),
            final(self).spec_topic_at(topic_name@).topic_data_type == old(self).spec_topic_at(
                topic_name@,
            ).topic_data_type,
            final(self).spec_topic_at(topic_name@).topic_kind == old(self).spec_topic_at(
                topic_name@,
            ).topic_kind,
            final(self).spec_topic_at(topic_name@).topic_qos == old(self).spec_topic_at(
                topic_name@,
            ).topic_qos,
            match r {
                Some(c) => {
                    &&& spec_contains_key(
                        old(self).spec_topic_at(topic_name@).history_cache@,
                        *instant,
                    )
                    &&& c == spec_change_at(
                        old(self).spec_topic_at(topic_name@).history_cache@,
                        *instant,
                    )
                    &&& final(self).spec_topic_at(topic_name@).history_cache@ == old(self).spec_topic_at(topic_name@).history_cache@.remove(
                        spec_key_index(
                            old(self).spec_topic_at(topic_name@).history_cache@,
                            *instant,
                        ),
                    )
                    &&& !spec_contains_key(
                        final(self).spec_topic_at(topic_name@).history_cache@,
                        *instant,
                    )
                },
                None => final(self).spec_topic_at(topic_name@).history_cache@ == old(self).spec_topic_at(topic_name@).history_cache@ && !spec_contains_key(
                    old(self).spec_topic_at(topic_name@).history_cache@,
                    *instant,
                ),
            },
    {
        let ghost pre = self@;
        match self.find_topic_index(topic_name) {
            Some(i) => {
                let mut entry = self.topic_caches.remove(i);
                let r = entry.1.remove_change(instant);
                let ghost updated = entry;
                self.topic_caches.insert(i, entry);
                proof {
                    self.lemma_entry_update(pre, updated, i as int, topic_name@);
                }
                r
            },
            None => None,
        }
    }

    /// After replacing the entry at `i`, the registry is still well formed,
    /// the other entries are untouched, and the named topic now maps to the
    /// replaced entry's cache.
    proof fn lemma_entry_update(
        &self,
        pre: Seq<(String, TopicCache)>,
        updated: (String, TopicCache),
        i: int,
        name: Seq<char>,
    )
        requires
            spec_names_unique(pre),
            forall|k: int| 0 <= k < pre.len() ==> (#[trigger] pre[k]).1.wf(),
            0 <= i < pre.len(),
            pre[i].0@ == name,
            self@ == pre.remove(i).insert(i, updated),
            updated.0 == pre[i].0,
            updated.1.wf(),
        ensures
            self.wf(),
            self@.len() == pre.len(),
            forall|k: int| 0 <= k < self@.len() ==> self@[k].0 == pre[k].0,
            forall|k: int| 0 <= k < self@.len() && pre[k].0@ != name ==> self@[k] == pre[k],
            self.spec_has_topic(name),
            self.spec_topic_index(name) == i,
            self.spec_topic_at(name) == updated.1,
    {
        let post = self@;
        assert(post =~= pre.update(i, updated));
        assert forall|k: int| 0 <= k < post.len() implies post[k].0 == pre[k].0 by {
            if k != i {
                assert(post[k] == pre[k]);
            }
        }
        lemma_topic_index_unique(pre, i);
        assert forall|a: int, b: int| 0 <= a < b < post.len() implies post[a].0@
            != post[b].0@ by {
            assert(post[a].0 == pre[a].0);
            assert(post[b].0 == pre[b].0);
        }
        assert forall|k: int| 0 <= k < post.len() implies (#[trigger] post[k]).1.wf() by {
            if k != i {
                assert(post[k] == pre[k]);
            }
        }
        assert(post[i].0@ == name);
        lemma_topic_index_unique(post, i);
    }
}

/// Law: registering a topic under a taken name returns `false` and leaves
/// the first record, its kind and its declared type intact.
pub proof fn lemma_add_topic_idempotent(
    pre: Seq<(String, TopicCache)>,
    mid: Seq<(String, TopicCache)>,
    post: Seq<(String, TopicCache)>,
    name: Seq<char>,
    kind: TopicKind,
    type_desc: Seq<char>,
    kind2: TopicKind,
    type_desc2: Seq<char>,
    r1: bool,
    r2: bool,
)
    requires
        !spec_seq_has_topic(pre, name),
        spec_add_new_topic_post(pre, mid, name, kind, type_desc, r1),
        spec_add_new_topic_post(mid, post, name, kind2, type_desc2, r2),
    ensures
        r1,
        !r2,
        post == mid,
        spec_seq_has_topic(mid, name),
        mid[spec_seq_topic_index(mid, name)].1.topic_kind == kind,
        mid[spec_seq_topic_index(mid, name)].1.topic_data_type@ == type_desc,
{
    assert(mid[pre.len() as int].0@ == name);
    assert(spec_seq_has_topic(mid, name));
    let w = spec_seq_topic_index(mid, name);
    assert(0 <= w < mid.len() && mid[w].0@ == name);
    if w < pre.len() {
        assert(mid[w] == pre[w]);
        assert(spec_seq_has_topic(pre, name));
    }
    assert(w == pre.len() as int);
}

} // verus!
