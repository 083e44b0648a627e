//! The writer façade over the sample cache: it owns the monotonic
//! per-writer sequence numbering and turns application writes and
//! disposals into cache changes.

use vstd::prelude::*;
use crate::cache_change::{CacheChange, ChangeKind, DDSData, Payload, SequenceNumber, TopicKind};
use crate::dds_cache::{spec_contains_key, spec_history_insert_post, DDSCache};
use crate::guid::GUID;
use crate::time::Timestamp;

verus! {

/// For one writer GUID, the sequence numbers along the history are
/// strictly increasing.
pub open spec fn spec_writer_seqs_monotonic(h: Seq<(Timestamp, CacheChange)>, g: GUID) -> bool {
    forall|i: int, j: int|
        0 <= i < j < h.len() && h[i].1.writer_guid == g && h[j].1.writer_guid == g
            ==> h[i].1.sequence_number.value < h[j].1.sequence_number.value
}

/// A typed writer endpoint: its GUID, the topic it publishes and the last
/// sequence number it handed out.
#[derive(Debug)]
pub struct Writer {
    pub guid: GUID,
    pub topic_name: String,
    pub last_sequence_number: SequenceNumber,
}

impl Writer {
    /// Every change this writer has in the history carries a stamp no
    /// newer than its counter.
    pub open spec fn spec_owns_history(&self, h: Seq<(Timestamp, CacheChange)>) -> bool {
        forall|i: int|
            0 <= i < h.len() && (#[trigger] h[i]).1.writer_guid == self.guid
                ==> h[i].1.sequence_number.value <= self.last_sequence_number.value
    }

    pub fn new(guid: GUID, topic_name: String) -> (w: Writer)
        ensures
            w.guid == guid,
            w.topic_name@ == topic_name@,
            w.last_sequence_number.value == 0,
    {
        Writer { guid, topic_name, last_sequence_number: SequenceNumber { value: 0 } }
    }

    /// Inserts a fresh ALIVE change at `now` with the next sequence
    /// number. The stamp comes off a monotonic clock, so it lies past
    /// every key already in the topic; the change lands at the end of the
    /// history, and per-writer sequence monotonicity is preserved for
    /// every writer.
    pub fn write(&mut self, cache: &mut DDSCache, now: Timestamp, data: DDSData)
        requires
            old(cache).wf(),
            old(cache).spec_has_topic(old(self).topic_name@),
            forall|k: int|
                0 <= k < old(cache).spec_topic_at(old(self).topic_name@).history_cache@.len()
                    ==> (#[trigger] old(cache).spec_topic_at(
                    old(self).topic_name@,
                ).history_cache@[k]).0.ticks < now.ticks,
            old(self).spec_owns_history(
                old(cache).spec_topic_at(old(self).topic_name@).history_cache@,
            ),
            old(self).last_sequence_number.value < i64::MAX,
        ensures
            final(cache).wf(),
            final(self).guid == old(self).guid,
            final(self).topic_name == old(self).topic_name,
            final(self).last_sequence_number.value == old(self).last_sequence_number.value + 1,
            final(cache)@.len() == old(cache)@.len(),
            forall|k: int|
                0 <= k < final(cache)@.len() && old(cache)@[k].0@ != old(self).topic_name@
                    ==> final(cache)@[k] == old(cache)@[k],
            final(cache).spec_has_topic(old(self).topic_name@),
            ({
                let h_old = old(cache).spec_topic_at(old(self).topic_name@).history_cache@;
                let h_new = final(cache).spec_topic_at(old(self).topic_name@).history_cache@;
                let change = (CacheChange {
                    kind: ChangeKind::Alive,
                    writer_guid: old(self).guid,
                    sequence_number: SequenceNumber {
                        value: (old(self).last_sequence_number.value + 1) as i64,
                    },
                    payload: Payload::Data(data),
                });
                &&& h_new == h_old.push((now, change))
                &&& final(self).spec_owns_history(h_new)
                &&& forall|g: GUID|
                    spec_writer_seqs_monotonic(h_old, g) ==> #[trigger] spec_writer_seqs_monotonic(
                        h_new,
                        g,
                    )
            }),
    {
        let seq = SequenceNumber { value: self.last_sequence_number.value + 1 };
        self.last_sequence_number = seq;
        let change = CacheChange {
            kind: ChangeKind::Alive,
            writer_guid: self.guid,
            sequence_number: seq,
            payload: Payload::Data(data),
        };
        let ghost h_old = cache.spec_topic_at(self.topic_name@).history_cache@;
        let ghost entry = (now, change);
        proof {
            if spec_contains_key(h_old, now) {
                let w = choose|w: int| 0 <= w < h_old.len() && h_old[w].0 == now;
                assert(h_old[w].0.ticks < now.ticks);
            }
        }
        cache.to_topic_add_change(&self.topic_name, &now, change);
        proof {
            let h_new = cache.spec_topic_at(self.topic_name@).history_cache@;
            let pos = choose|pos: int|
                0 <= pos <= h_old.len() && h_new == h_old.insert(pos, entry);
            if pos < h_old.len() {
                assert(h_new[pos + 1] == h_old[pos]);
                assert(h_new[pos] == entry);
                assert(h_new[pos].0.ticks < h_new[pos + 1].0.ticks);
            }
            assert(pos == h_old.len());
            assert(h_new =~= h_old.push(entry));
        }
    }

    /// Inserts a NOT_ALIVE_DISPOSED change carrying only the instance key;
    /// only a keyed topic has instances to dispose.
    pub fn dispose(&mut self, cache: &mut DDSCache, now: Timestamp, key: DDSData)
        requires
            old(cache).wf(),
            old(cache).spec_has_topic(old(self).topic_name@),
            old(cache).spec_topic_at(old(self).topic_name@).topic_kind == TopicKind::WithKey,
            forall|k: int|
                0 <= k < old(cache).spec_topic_at(old(self).topic_name@).history_cache@.len()
                    ==> (#[trigger] old(cache).spec_topic_at(
                    old(self).topic_name@,
                ).history_cache@[k]).0.ticks < now.ticks,
            old(self).spec_owns_history(
                old(cache).spec_topic_at(old(self).topic_name@).history_cache@,
            ),
            old(self).last_sequence_number.value < i64::MAX,
        ensures
            final(cache).wf(),
            final(self).guid == old(self).guid,
            final(self).topic_name == old(self).topic_name,
            final(self).last_sequence_number.value == old(self).last_sequence_number.value + 1,
            final(cache)@.len() == old(cache)@.len(),
            forall|k: int|
                0 <= k < final(cache)@.len() && old(cache)@[k].0@ != old(self).topic_name@
                    ==> final(cache)@[k] == old(cache)@[k],
            final(cache).spec_has_topic(old(self).topic_name@),
            ({
                let h_old = old(cache).spec_topic_at(old(self).topic_name@).history_cache@;
                let h_new = final(cache).spec_topic_at(old(self).topic_name@).history_cache@;
                let change = (CacheChange {
                    kind: ChangeKind::NotAliveDisposed,
                    writer_guid: old(self).guid,
                    sequence_number: SequenceNumber {
                        value: (old(self).last_sequence_number.value + 1) as i64,
                    },
                    payload: Payload::KeyOnly(key),
                });
                &&& h_new == h_old.push((now, change))
                &&& final(self).spec_owns_history(h_new)
                &&& forall|g: GUID|
                    spec_writer_seqs_monotonic(h_old, g) ==> #[trigger] spec_writer_seqs_monotonic(
                        h_new,
                        g,
                    )
            }),
    {
        let seq = SequenceNumber { value: self.last_sequence_number.value + 1 };
        self.last_sequence_number = seq;
        let change = CacheChange {
            kind: ChangeKind::NotAliveDisposed,
            writer_guid: self.guid,
            sequence_number: seq,
            payload: Payload::KeyOnly(key),
        };
        let ghost h_old = cache.spec_topic_at(self.topic_name@).history_cache@;
        let ghost entry = (now, change);
        proof {
            if spec_contains_key(h_old, now) {
                let w = choose|w: int| 0 <= w < h_old.len() && h_old[w].0 == now;
                assert(h_old[w].0.ticks < now.ticks);
            }
        }
        cache.to_topic_add_change(&self.topic_name, &now, change);
        proof {
            let h_new = cache.spec_topic_at(self.topic_name@).history_cache@;
            let pos = choose|pos: int|
                0 <= pos <= h_old.len() && h_new == h_old.insert(pos, entry);
            if pos < h_old.len() {
                assert(h_new[pos + 1] == h_old[pos]);
                assert(h_new[pos] == entry);
                assert(h_new[pos].0.ticks < h_new[pos + 1].0.ticks);
            }
            assert(pos == h_old.len());
            assert(h_new =~= h_old.push(entry));
        }
    }
}

/// Number of changes of writer `g` in the history.
pub open spec fn spec_writer_change_count(h: Seq<(Timestamp, CacheChange)>, g: GUID) -> int
    decreases h.len(),
{
    if h.len() == 0 {
        0
    } else {
        spec_writer_change_count(h.drop_last(), g) + if h.last().1.writer_guid == g {
            1int
        } else {
            0int
        }
    }
}

/// The history with its `n` oldest changes of writer `g` removed; for
/// `n <= 0` nothing is removed.
pub open spec fn spec_drop_oldest_of_writer(
    h: Seq<(Timestamp, CacheChange)>,
    g: GUID,
    n: int,
) -> Seq<(Timestamp, CacheChange)>
    decreases h.len(),
{
    if n <= 0 || h.len() == 0 {
        h
    } else if h[0].1.writer_guid == g {
        spec_drop_oldest_of_writer(h.drop_first(), g, n - 1)
    } else {
        seq![h[0]] + spec_drop_oldest_of_writer(h.drop_first(), g, n)
    }
}

proof fn lemma_count_bounds(h: Seq<(Timestamp, CacheChange)>, g: GUID)
    ensures
        0 <= spec_writer_change_count(h, g) <= h.len(),
    decreases h.len(),
{
    if h.len() > 0 {
        lemma_count_bounds(h.drop_last(), g);
    }
}

proof fn lemma_count_positive_exists(h: Seq<(Timestamp, CacheChange)>, g: GUID)
    requires
        spec_writer_change_count(h, g) > 0,
    ensures
        exists|i: int| 0 <= i < h.len() && (#[trigger] h[i]).1.writer_guid == g,
    decreases h.len(),
{
    lemma_count_bounds(h, g);
    if h.last().1.writer_guid == g {
        assert(h[h.len() - 1].1.writer_guid == g);
    } else {
        lemma_count_positive_exists(h.drop_last(), g);
        let i = choose|i: int|
            0 <= i < h.drop_last().len() && (#[trigger] h.drop_last()[i]).1.writer_guid == g;
        assert(h[i].1.writer_guid == g);
    }
}

proof fn lemma_count_remove(h: Seq<(Timestamp, CacheChange)>, g: GUID, i: int)
    requires
        0 <= i < h.len(),
    ensures
        spec_writer_change_count(h.remove(i), g) == spec_writer_change_count(h, g) - (
        if h[i].1.writer_guid == g {
            1int
        } else {
            0int
        }),
    decreases h.len(),
{
    if i == h.len() - 1 {
        assert(h.remove(i) =~= h.drop_last());
    } else {
        assert(h.remove(i).drop_last() =~= h.drop_last().remove(i));
        assert(h.remove(i).last() == h.last());
        lemma_count_remove(h.drop_last(), g, i);
        assert(h.drop_last()[i] == h[i]);
    }
}

proof fn lemma_drop_additive(h: Seq<(Timestamp, CacheChange)>, g: GUID, a: int, b: int)
    requires
        a >= 0,
        b >= 0,
    ensures
        spec_drop_oldest_of_writer(h, g, a + b) == spec_drop_oldest_of_writer(
            spec_drop_oldest_of_writer(h, g, a),
            g,
            b,
        ),
    decreases h.len(),
{
    if a == 0 || h.len() == 0 {
    } else if h[0].1.writer_guid == g {
        lemma_drop_additive(h.drop_first(), g, a - 1, b);
    } else {
        let t = h.drop_first();
        lemma_drop_additive(t, g, a, b);
        let da = spec_drop_oldest_of_writer(t, g, a);
        assert(spec_drop_oldest_of_writer(h, g, a) == seq![h[0]] + da);
        if b > 0 {
            let c = seq![h[0]] + da;
            assert(c[0] == h[0]);
            assert(c.drop_first() =~= da);
            if c.len() > 0 {
                assert(spec_drop_oldest_of_writer(c, g, b) == seq![c[0]]
                    + spec_drop_oldest_of_writer(da, g, b));
            }
            if a + b > 0 {
                assert(spec_drop_oldest_of_writer(h, g, a + b) == seq![h[0]]
                    + spec_drop_oldest_of_writer(t, g, a + b));
            }
        }
    }
}

proof fn lemma_drop_first_match(h: Seq<(Timestamp, CacheChange)>, g: GUID, i: int)
    requires
        0 <= i < h.len(),
        h[i].1.writer_guid == g,
        forall|k: int| 0 <= k < i ==> (#[trigger] h[k]).1.writer_guid != g,
    ensures
        spec_drop_oldest_of_writer(h, g, 1) == h.remove(i),
    decreases i,
{
    if i == 0 {
        assert(h.remove(0) =~= h.drop_first());
        assert(spec_drop_oldest_of_writer(h.drop_first(), g, 0) == h.drop_first());
        assert(spec_drop_oldest_of_writer(h, g, 1) == spec_drop_oldest_of_writer(
            h.drop_first(),
            g,
            0,
        ));
    } else {
        let t = h.drop_first();
        assert(t[i - 1].1.writer_guid == g);
        assert forall|k: int| 0 <= k < i - 1 implies (#[trigger] t[k]).1.writer_guid != g by {
            assert(t[k] == h[k + 1]);
        }
        lemma_drop_first_match(t, g, i - 1);
        assert(h[0].1.writer_guid != g);
        assert(spec_drop_oldest_of_writer(h, g, 1) == seq![h[0]] + spec_drop_oldest_of_writer(
            t,
            g,
            1,
        ));
        assert(h.remove(i) =~= seq![h[0]] + t.remove(i - 1));
    }
}

fn count_writer_changes(h: &Vec<(Timestamp, CacheChange)>, g: GUID) -> (n: usize)
    ensures
        n == spec_writer_change_count(h@, g),
{
    let mut n: usize = 0;
    let mut j: usize = 0;
    proof {
        assert(h@.subrange(0, 0) =~= Seq::<(Timestamp, CacheChange)>::empty());
    }
    while j < h.len()
        invariant
            j <= h@.len(),
            n <= j,
            n == spec_writer_change_count(h@.subrange(0, j as int), g),
        decreases h@.len() - j,
    {
        let entry = vstd::slice::slice_index_get(h.as_slice(), j);
        proof {
            let sub = h@.subrange(0, j + 1);
            assert(sub.drop_last() =~= h@.subrange(0, j as int));
            assert(sub.last() == h@[j as int]);
        }
        if entry.1.writer_guid == g {
            n = n + 1;
        }
        j = j + 1;
    }
    proof {
        assert(h@.subrange(0, h@.len() as int) =~= h@);
    }
    n
}

fn find_first_writer_change(h: &Vec<(Timestamp, CacheChange)>, g: GUID) -> (r: Option<
    (usize, Timestamp),
>)
    ensures
        match r {
            Some(p) => {
                &&& p.0 < h@.len()
                &&& h@[p.0 as int].1.writer_guid == g
                &&& h@[p.0 as int].0 == p.1
                &&& forall|k: int| 0 <= k < p.0 ==> (#[trigger] h@[k]).1.writer_guid != g
            },
            None => forall|k: int| 0 <= k < h@.len() ==> (#[trigger] h@[k]).1.writer_guid != g,
        },
{
    let mut j: usize = 0;
    while j < h.len()
        invariant
            j <= h@.len(),
            forall|k: int| 0 <= k < j ==> (#[trigger] h@[k]).1.writer_guid != g,
        decreases h@.len() - j,
    {
        let entry = vstd::slice::slice_index_get(h.as_slice(), j);
        if entry.1.writer_guid == g {
            return Some((j, entry.0));
        }
        j = j + 1;
    }
    None
}

impl Writer {
    /// KEEP_LAST retention: removes this writer's oldest changes from its
    /// topic until at most `depth` of them remain. Other writers' changes
    /// and other topics are untouched. On a keyed topic the instances
    /// share the writer's budget, since the instance key lives inside the
    /// opaque payload.
    pub fn enforce_keep_last(&self, cache: &mut DDSCache, depth: usize)
        requires
            old(cache).wf(),
            old(cache).spec_has_topic(self.topic_name@),
        ensures
            final(cache).wf(),
            final(cache)@.len() == old(cache)@.len(),
            forall|k: int|
                0 <= k < final(cache)@.len() ==> final(cache)@[k].0 == old(cache)@[k].0,
            forall|k: int|
                0 <= k < final(cache)@.len() && old(cache)@[k].0@ != self.topic_name@
                    ==> final(cache)@[k] == old(cache)@[k],
            final(cache).spec_has_topic(self.topic_name@),
            final(cache).spec_topic_at(self.topic_name@).topic_data_type == old(
                cache,
            ).spec_topic_at(self.topic_name@).topic_data_type,
            final(cache).spec_topic_at(self.topic_name@).topic_kind == old(cache).spec_topic_at(
                self.topic_name@,
            ).topic_kind,
            final(cache).spec_topic_at(self.topic_name@).topic_qos == old(cache).spec_topic_at(
                self.topic_name@,
            ).topic_qos,
            final(cache).spec_topic_at(self.topic_name@).history_cache@
                == spec_drop_oldest_of_writer(
                old(cache).spec_topic_at(self.topic_name@).history_cache@,
                self.guid,
                spec_writer_change_count(
                    old(cache).spec_topic_at(self.topic_name@).history_cache@,
                    self.guid,
                ) - depth,
            ),
    {
        let ghost h_old = cache.spec_topic_at(self.topic_name@).history_cache@;
        let count = match cache.from_topic_get_all_changes(&self.topic_name) {
            Some(all) => count_writer_changes(all, self.guid),
            None => vstd::pervasive::unreached(),
        };
        if count <= depth {
            proof {
                assert(spec_drop_oldest_of_writer(h_old, self.guid, count - depth) == h_old);
            }
            return ;
        }
        let n = count - depth;
        let mut removed: usize = 0;
        while removed < n
            invariant
                cache.wf(),
                cache.spec_has_topic(self.topic_name@),
                cache@.len() == old(cache)@.len(),
                forall|k: int| 0 <= k < cache@.len() ==> cache@[k].0 == old(cache)@[k].0,
                forall|k: int|
                    0 <= k < cache@.len() && old(cache)@[k].0@ != self.topic_name@ ==> cache@[k]
                        == old(cache)@[k],
                cache.spec_topic_at(self.topic_name@).topic_data_type == old(
                    cache,
                ).spec_topic_at(self.topic_name@).topic_data_type,
                cache.spec_topic_at(self.topic_name@).topic_kind == old(cache).spec_topic_at(
                    self.topic_name@,
                ).topic_kind,
                cache.spec_topic_at(self.topic_name@).topic_qos == old(cache).spec_topic_at(
                    self.topic_name@,
                ).topic_qos,
                h_old == old(cache).spec_topic_at(self.topic_name@).history_cache@,
                removed <= n,
                n == count - depth,
                count == spec_writer_change_count(h_old, self.guid),
                cache.spec_topic_at(self.topic_name@).history_cache@
                    == spec_drop_oldest_of_writer(h_old, self.guid, removed as int),
                spec_writer_change_count(
                    cache.spec_topic_at(self.topic_name@).history_cache@,
                    self.guid,
                ) == count - removed,
            decreases n - removed,
        {
            let ghost h_cur = cache.spec_topic_at(self.topic_name@).history_cache@;
            proof {
                lemma_count_positive_exists(h_cur, self.guid);
            }
            let target = match cache.from_topic_get_all_changes(&self.topic_name) {
                Some(all) => match find_first_writer_change(all, self.guid) {
                    Some(p) => p,
                    None => vstd::pervasive::unreached(),
                },
                None => vstd::pervasive::unreached(),
            };
            let (first_index, first_stamp) = target;
            proof {
                assert(spec_contains_key(h_cur, first_stamp));
            }
            let taken = cache.from_topic_remove_change(&self.topic_name, &first_stamp);
            proof {
                let h_new = cache.spec_topic_at(self.topic_name@).history_cache@;
                assert(taken is Some);
                let idx = crate::dds_cache::spec_key_index(h_cur, first_stamp);
                crate::dds_cache::lemma_sorted_key_unique(h_cur, idx, first_index as int);
                assert(h_new == h_cur.remove(first_index as int));
                lemma_drop_first_match(h_cur, self.guid, first_index as int);
                lemma_drop_additive(h_old, self.guid, removed as int, 1);
                assert(h_new == spec_drop_oldest_of_writer(h_old, self.guid, removed + 1));
                lemma_count_remove(h_cur, self.guid, first_index as int);
            }
            removed = removed + 1;
        }
    }
}

} // verus!
