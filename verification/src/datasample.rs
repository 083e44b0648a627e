//! Per-read sample metadata: the DDS sample, view and instance states, the
//! [`SampleInfo`] block attached to every returned sample, and the
//! [`DataSample`] pairing a value (or, for a disposal, its key alone) with
//! that metadata.

use vstd::prelude::*;
use vstd::pervasive::VecAdditionalExecFns;
use vstd::slice::slice_index_get;
use crate::guid::GUID;
use crate::time::{Timestamp, TIME_INVALID_TICKS};

verus! {

/// Whether this reader has already read the sample.
#[derive(Clone, Copy, PartialEq, Eq, Structural, Debug)]
pub enum SampleState {
    Read,
    NotRead,
}

/// A set of sample states, standing for the DDS state bitmask.
#[derive(Clone, Copy, PartialEq, Eq, Structural, Debug)]
pub struct SampleStateSet {
    pub read: bool,
    pub not_read: bool,
}

pub open spec fn spec_sample_state_in(s: SampleStateSet, st: SampleState) -> bool {
    match st {
        SampleState::Read => s.read,
        SampleState::NotRead => s.not_read,
    }
}

impl SampleState {
    /// Set that contains all possible states.
    pub fn any() -> (s: SampleStateSet)
        ensures
            forall|st: SampleState| spec_sample_state_in(s, st),
    {
        SampleStateSet { read: true, not_read: true }
    }
}

impl SampleStateSet {
    pub fn contains(&self, st: SampleState) -> (r: bool)
        ensures
            r == spec_sample_state_in(*self, st),
    {
        match st {
            SampleState::Read => self.read,
            SampleState::NotRead => self.not_read,
        }
    }
}

/// Whether the instance is new to this reader, or reborn since last read.
#[derive(Clone, Copy, PartialEq, Eq, Structural, Debug)]
pub enum ViewState {
    New,
    NotNew,
}

/// A set of view states, standing for the DDS state bitmask.
#[derive(Clone, Copy, PartialEq, Eq, Structural, Debug)]
pub struct ViewStateSet {
    pub is_new: bool,
    pub not_new: bool,
}

pub open spec fn spec_view_state_in(s: ViewStateSet, st: ViewState) -> bool {
    match st {
        ViewState::New => s.is_new,
        ViewState::NotNew => s.not_new,
    }
}

impl ViewState {
    /// Set that contains all possible states.
    pub fn any() -> (s: ViewStateSet)
        ensures
            forall|st: ViewState| spec_view_state_in(s, st),
    {
        ViewStateSet { is_new: true, not_new: true }
    }
}

impl ViewStateSet {
    pub fn contains(&self, st: ViewState) -> (r: bool)
        ensures
            r == spec_view_state_in(*self, st),
    {
        match st {
            ViewState::New => self.is_new,
            ViewState::NotNew => self.not_new,
        }
    }
}

/// Whether the instance is alive, actively disposed, or left without any
/// live writer.
#[allow(non_camel_case_types)]
#[derive(Clone, Copy, PartialEq, Eq, Structural, Debug)]
pub enum InstanceState {
    Alive,
    NotAlive_Disposed,
    NotAlive_NoWriters,
}

/// A set of instance states, standing for the DDS state bitmask.
#[derive(Clone, Copy, PartialEq, Eq, Structural, Debug)]
pub struct InstanceStateSet {
    pub alive: bool,
    pub not_alive_disposed: bool,
    pub not_alive_no_writers: bool,
}

pub open spec fn spec_instance_state_in(s: InstanceStateSet, st: InstanceState) -> bool {
    match st {
        InstanceState::Alive => s.alive,
        InstanceState::NotAlive_Disposed => s.not_alive_disposed,
        InstanceState::NotAlive_NoWriters => s.not_alive_no_writers,
    }
}

impl InstanceState {
    /// Set that contains all possible states.
    pub fn any() -> (s: InstanceStateSet)
        ensures
            forall|st: InstanceState| spec_instance_state_in(s, st),
    {
        InstanceStateSet { alive: true, not_alive_disposed: true, not_alive_no_writers: true }
    }

    /// Set that contains both not-alive states.
    pub fn not_alive() -> (s: InstanceStateSet)
        ensures
            !spec_instance_state_in(s, InstanceState::Alive),
            spec_instance_state_in(s, InstanceState::NotAlive_Disposed),
            spec_instance_state_in(s, InstanceState::NotAlive_NoWriters),
    {
        InstanceStateSet { alive: false, not_alive_disposed: true, not_alive_no_writers: true }
    }
}

impl InstanceStateSet {
    pub fn contains(&self, st: InstanceState) -> (r: bool)
        ensures
            r == spec_instance_state_in(*self, st),
    {
        match st {
            InstanceState::Alive => self.alive,
            InstanceState::NotAlive_Disposed => self.not_alive_disposed,
            InstanceState::NotAlive_NoWriters => self.not_alive_no_writers,
        }
    }
}

/// Per-read metadata computed at read time, never stored in the cache.
#[derive(Clone, Copy, PartialEq, Eq, Structural, Debug)]
pub struct SampleInfo {
    pub sample_state: SampleState,
    pub view_state: ViewState,
    pub instance_state: InstanceState,
    pub disposed_generation_count: i32,
    pub no_writers_generation_count: i32,
    pub sample_rank: i32,
    pub generation_rank: i32,
    pub absolute_generation_rank: i32,
    pub source_timestamp: Timestamp,
    pub publication_handle: GUID,
}

impl SampleInfo {
    /// Fresh metadata: not yet read, new to the reader, alive, all counts
    /// and ranks zero, no source time, unknown publisher.
    pub fn new() -> (s: SampleInfo)
        ensures
            s.sample_state == SampleState::NotRead,
            s.view_state == ViewState::New,
            s.instance_state == InstanceState::Alive,
            s.disposed_generation_count == 0,
            s.no_writers_generation_count == 0,
            s.sample_rank == 0,
            s.generation_rank == 0,
            s.absolute_generation_rank == 0,
            s.source_timestamp.ticks == TIME_INVALID_TICKS,
            s.publication_handle == (GUID {
                prefix: crate::guid::GuidPrefix { bytes_0_3: 0u32, bytes_4_7: 0u32, bytes_8_11: 0u32 },
                entity_id: crate::guid::EntityId { value: 0u32 },
            }),
    {
        SampleInfo {
            sample_state: SampleState::NotRead,
            view_state: ViewState::New,
            instance_state: InstanceState::Alive,
            disposed_generation_count: 0,
            no_writers_generation_count: 0,
            sample_rank: 0,
            generation_rank: 0,
            absolute_generation_rank: 0,
            source_timestamp: Timestamp::time_invalid(),
            publication_handle: GUID::guid_unknown(),
        }
    }
}

/// The instance state a reader reports for an instance: a disposal wins;
/// otherwise the instance is alive exactly while some matched writer
/// still is, and has lost its writers when none is.
pub open spec fn spec_derive_instance_state(
    latest_kind: crate::cache_change::ChangeKind,
    any_live_writer: bool,
) -> InstanceState {
    match latest_kind {
        crate::cache_change::ChangeKind::NotAliveDisposed => InstanceState::NotAlive_Disposed,
        _ => if any_live_writer {
            InstanceState::Alive
        } else {
            InstanceState::NotAlive_NoWriters
        },
    }
}

/// Derives the instance state from the kind of the instance's latest
/// change and from whether any matched writer is still live.
pub fn derive_instance_state(
    latest_kind: crate::cache_change::ChangeKind,
    any_live_writer: bool,
) -> (s: InstanceState)
    ensures
        s == spec_derive_instance_state(latest_kind, any_live_writer),
{
    match latest_kind {
        crate::cache_change::ChangeKind::NotAliveDisposed => InstanceState::NotAlive_Disposed,
        _ => {
            if any_live_writer {
                InstanceState::Alive
            } else {
                InstanceState::NotAlive_NoWriters
            }
        },
    }
}

/// A data type whose instances are told apart by a key.
pub trait Keyed {
    type K;

    /// The key of this value, at the specification level.
    spec fn spec_key(&self) -> Self::K;

    /// The key of this value.
    fn get_key(&self) -> (k: Self::K)
        ensures
            k == self.spec_key(),
    ;
}

/// One sample as handed to the application: metadata plus either the value
/// (a live sample) or only its key (a disposal or unregistration).
pub struct DataSample<D: Keyed> {
    pub sample_info: SampleInfo,
    pub value: Result<D, <D as Keyed>::K>,
}

impl<D: Keyed> DataSample<D> {
    /// The sample's key: the value's own key, or the bare key of a
    /// disposal.
    pub open spec fn spec_key_of(&self) -> <D as Keyed>::K {
        match self.value {
            Ok(d) => d.spec_key(),
            Err(k) => k,
        }
    }

    /// Wraps a live value: not read, new, alive, stamped with its source
    /// time and producing writer.
    pub fn new(source_timestamp: Timestamp, payload: D, writer_guid: GUID) -> (r: DataSample<D>)
        ensures
            r.sample_info.sample_state == SampleState::NotRead,
            r.sample_info.view_state == ViewState::New,
            r.sample_info.instance_state == InstanceState::Alive,
            r.sample_info.disposed_generation_count == 0,
            r.sample_info.no_writers_generation_count == 0,
            r.sample_info.sample_rank == 0,
            r.sample_info.generation_rank == 0,
            r.sample_info.absolute_generation_rank == 0,
            r.sample_info.source_timestamp == source_timestamp,
            r.sample_info.publication_handle == writer_guid,
            r.value == Ok::<D, <D as Keyed>::K>(payload),
    {
        DataSample {
            sample_info: SampleInfo {
                sample_state: SampleState::NotRead,
                view_state: ViewState::New,
                instance_state: InstanceState::Alive,
                disposed_generation_count: 0,
                no_writers_generation_count: 0,
                sample_rank: 0,
                generation_rank: 0,
                absolute_generation_rank: 0,
                source_timestamp,
                publication_handle: writer_guid,
            },
            value: Ok(payload),
        }
    }

    /// Wraps the key of a disposed instance: as [`Self::new`], but the
    /// instance state is already disposed and no value is carried.
    pub fn new_disposed(
        source_timestamp: Timestamp,
        key: <D as Keyed>::K,
        writer_guid: GUID,
    ) -> (r: DataSample<D>)
        ensures
            r.sample_info.sample_state == SampleState::NotRead,
            r.sample_info.view_state == ViewState::New,
            r.sample_info.instance_state == InstanceState::NotAlive_Disposed,
            r.sample_info.disposed_generation_count == 0,
            r.sample_info.no_writers_generation_count == 0,
            r.sample_info.sample_rank == 0,
            r.sample_info.generation_rank == 0,
            r.sample_info.absolute_generation_rank == 0,
            r.sample_info.source_timestamp == source_timestamp,
            r.sample_info.publication_handle == writer_guid,
            r.value == Err::<D, <D as Keyed>::K>(key),
    {
        DataSample {
            sample_info: SampleInfo {
                sample_state: SampleState::NotRead,
                view_state: ViewState::New,
                instance_state: InstanceState::NotAlive_Disposed,
                disposed_generation_count: 0,
                no_writers_generation_count: 0,
                sample_rank: 0,
                generation_rank: 0,
                absolute_generation_rank: 0,
                source_timestamp,
                publication_handle: writer_guid,
            },
            value: Err(key),
        }
    }

    pub fn get_sample_info(&self) -> (r: &SampleInfo)
        ensures
            *r == self.sample_info,
    {
        &self.sample_info
    }

    pub fn get_value(&self) -> (r: Option<&D>)
        ensures
            match r {
                Some(d) => self.value == Ok::<D, <D as Keyed>::K>(*d),
                None => self.value is Err,
            },
    {
        match &self.value {
            Ok(d) => Some(d),
            Err(_) => None,
        }
    }

    pub fn into_value(self) -> (r: Option<D>)
        ensures
            match r {
                Some(d) => self.value == Ok::<D, <D as Keyed>::K>(d),
                None => self.value is Err,
            },
    {
        match self.value {
            Ok(d) => Some(d),
            Err(_) => None,
        }
    }

    pub fn get_keyed_value(&self) -> (r: &Result<D, <D as Keyed>::K>)
        ensures
            *r == self.value,
    {
        &self.value
    }
}

impl<D: Keyed> DataSample<D> where <D as Keyed>::K: Copy {
    /// Shorthand for the key, without digging out the value.
    pub fn get_key(&self) -> (k: <D as Keyed>::K)
        ensures
            k == self.spec_key_of(),
    {
        match &self.value {
            Ok(d) => d.get_key(),
            Err(k) => *k,
        }
    }
}

/// The sample's generation total: disposals plus writer losses seen
/// before it was received.
pub open spec fn spec_generation_total(s: SampleInfo) -> int {
    s.disposed_generation_count + s.no_writers_generation_count
}

/// How many samples at or after position `from` belong to instance `key`.
pub open spec fn spec_count_same_from(instances: Seq<GUID>, key: GUID, from: int) -> int
    decreases instances.len() - from,
{
    if from < 0 || from >= instances.len() {
        0
    } else {
        (if instances[from] == key {
            1int
        } else {
            0int
        }) + spec_count_same_from(instances, key, from + 1)
    }
}

/// Position of the most recent sample of instance `key` in the
/// collection; negative when the instance does not appear.
pub open spec fn spec_last_index_of(instances: Seq<GUID>, key: GUID) -> int
    decreases instances.len(),
{
    if instances.len() == 0 {
        -1
    } else if instances.last() == key {
        instances.len() - 1
    } else {
        spec_last_index_of(instances.drop_last(), key)
    }
}

proof fn lemma_count_same_from_bounds(instances: Seq<GUID>, key: GUID, from: int)
    ensures
        0 <= spec_count_same_from(instances, key, from),
        spec_count_same_from(instances, key, from) <= instances.len() - from || from < 0
            || from > instances.len(),
    decreases instances.len() - from,
{
    if 0 <= from < instances.len() {
        lemma_count_same_from_bounds(instances, key, from + 1);
    }
}

proof fn lemma_last_index_covers(instances: Seq<GUID>, key: GUID, j: int)
    requires
        0 <= j < instances.len(),
        instances[j] == key,
    ensures
        j <= spec_last_index_of(instances, key) < instances.len(),
        instances[spec_last_index_of(instances, key)] == key,
    decreases instances.len(),
{
    if instances.last() == key {
    } else {
        assert(j < instances.len() - 1);
        assert(instances.drop_last()[j] == key);
        lemma_last_index_covers(instances.drop_last(), key, j);
    }
}

/// Counts the samples at or after `from` that belong to instance `key`.
fn count_same_from(instances: &Vec<GUID>, key: GUID, from: usize) -> (n: usize)
    ensures
        n == spec_count_same_from(instances@, key, from as int),
{
    let mut n: usize = 0;
    let mut j: usize = from;
    proof {
        lemma_count_same_from_bounds(instances@, key, from as int);
    }
    while j < instances.len()
        invariant
            from <= j,
            j <= instances.len() || j == from,
            n + spec_count_same_from(instances@, key, j as int) == spec_count_same_from(
                instances@,
                key,
                from as int,
            ),
            n <= j,
        decreases instances.len() - j,
    {
        proof {
            lemma_count_same_from_bounds(instances@, key, j + 1);
            assert(spec_count_same_from(instances@, key, j as int) == (if instances@[j as int]
                == key {
                1int
            } else {
                0int
            }) + spec_count_same_from(instances@, key, j + 1));
        }
        let entry = slice_index_get(instances.as_slice(), j);
        if *entry == key {
            n = n + 1;
        }
        j = j + 1;
    }
    n
}

/// Position of the most recent sample of instance `key`, starting from a
/// known occurrence.
fn last_index_of_from(instances: &Vec<GUID>, key: GUID, start: usize) -> (r: usize)
    requires
        instances@.len() <= 0x7fff_ffff,
        start < instances@.len(),
        instances@[start as int] == key,
    ensures
        r == spec_last_index_of(instances@, key),
        start <= r < instances@.len(),
        instances@[r as int] == key,
{
    let mut best: usize = start;
    let mut j: usize = start + 1;
    proof {
        let sub = instances@.subrange(0, start + 1);
        assert(sub.last() == instances@[start as int]);
        assert(spec_last_index_of(sub, key) == start);
    }
    while j < instances.len()
        invariant
            start <= best < j <= instances@.len() || (start <= best < j && j == start + 1),
            j <= instances@.len(),
            best < j,
            instances@[best as int] == key,
            spec_last_index_of(instances@.subrange(0, j as int), key) == best,
        decreases instances@.len() - j,
    {
        let entry = slice_index_get(instances.as_slice(), j);
        proof {
            let sub = instances@.subrange(0, j + 1);
            assert(sub.last() == instances@[j as int]);
            assert(sub.drop_last() =~= instances@.subrange(0, j as int));
            if instances@[j as int] != key {
                assert(spec_last_index_of(sub, key) == spec_last_index_of(
                    instances@.subrange(0, j as int),
                    key,
                ));
            }
        }
        if *entry == key {
            best = j;
        }
        j = j + 1;
    }
    proof {
        assert(instances@.subrange(0, instances@.len() as int) =~= instances@);
    }
    best
}

/// Fills the three rank fields of a returned collection, following the
/// DDS formulas: `sample_rank` counts the later samples of the same
/// instance in the collection; `generation_rank` sets the sample's
/// generation total against that of the most recent sample of its
/// instance in the collection; `absolute_generation_rank` sets it against
/// the instance's generation total known to the reader at read time,
/// handed in per sample. Everything else in each entry stays as it was.
pub fn compute_sample_ranks(
    infos: &mut Vec<SampleInfo>,
    instances: &Vec<GUID>,
    reader_generation_totals: &Vec<i32>,
)
    requires
        old(infos)@.len() == instances@.len(),
        old(infos)@.len() == reader_generation_totals@.len(),
        instances@.len() <= 0x7fff_ffff,
        forall|i: int|
            0 <= i < old(infos)@.len() ==> 0 <= (#[trigger] old(infos)@[i]).disposed_generation_count
                + old(infos)@[i].no_writers_generation_count <= 0x3fff_ffff,
        forall|i: int|
            0 <= i < reader_generation_totals@.len() ==> 0 <= #[trigger] reader_generation_totals@[i]
                <= 0x3fff_ffff,
    ensures
        final(infos)@.len() == old(infos)@.len(),
        forall|i: int|
            0 <= i < final(infos)@.len() ==> final(infos)@[i] == (SampleInfo {
                sample_rank: spec_count_same_from(instances@, instances@[i], i + 1) as i32,
                generation_rank: (spec_generation_total(
                    old(infos)@[spec_last_index_of(instances@, instances@[i])],
                ) - spec_generation_total(old(infos)@[i])) as i32,
                absolute_generation_rank: (reader_generation_totals@[i] - spec_generation_total(
                    old(infos)@[i],
                )) as i32,
                ..old(infos)@[i]
            }),
{
    let ghost orig = infos@;
    let mut i: usize = 0;
    while i < infos.len()
        invariant
            infos@.len() == orig.len(),
            orig.len() == instances@.len(),
            orig.len() == reader_generation_totals@.len(),
            instances@.len() <= 0x7fff_ffff,
            i <= orig.len(),
            forall|k: int|
                0 <= k < orig.len() ==> 0 <= (#[trigger] orig[k]).disposed_generation_count
                    + orig[k].no_writers_generation_count <= 0x3fff_ffff,
            forall|k: int|
                0 <= k < reader_generation_totals@.len() ==> 0
                    <= #[trigger] reader_generation_totals@[k] <= 0x3fff_ffff,
            forall|k: int| i <= k < orig.len() ==> infos@[k] == orig[k],
            forall|k: int|
                0 <= k < i ==> infos@[k] == (SampleInfo {
                    sample_rank: spec_count_same_from(instances@, instances@[k], k + 1) as i32,
                    generation_rank: (spec_generation_total(
                        orig[spec_last_index_of(instances@, instances@[k])],
                    ) - spec_generation_total(orig[k])) as i32,
                    absolute_generation_rank: (reader_generation_totals@[k]
                        - spec_generation_total(orig[k])) as i32,
                    ..orig[k]
                }),
        decreases infos@.len() - i,
    {
        let key = *slice_index_get(instances.as_slice(), i);
        let sample_rank_count = count_same_from(instances, key, i + 1);
        proof {
            lemma_count_same_from_bounds(instances@, key, i + 1);
        }
        let mrsic = last_index_of_from(instances, key, i);
        proof {
            lemma_last_index_covers(instances@, key, i as int);
            // the most recent sample of this instance sits at or after
            // `i`, so its generation counters have not been rewritten yet
            assert(infos@[mrsic as int] == orig[mrsic as int]);
        }
        let mrsic_info = *slice_index_get(infos.as_slice(), mrsic);
        let current = *slice_index_get(infos.as_slice(), i);
        let mrsic_total: i32 = mrsic_info.disposed_generation_count
            + mrsic_info.no_writers_generation_count;
        let current_total: i32 = current.disposed_generation_count
            + current.no_writers_generation_count;
        let reader_total: i32 = *slice_index_get(reader_generation_totals.as_slice(), i);
        let updated = SampleInfo {
            sample_rank: sample_rank_count as i32,
            generation_rank: mrsic_total - current_total,
            absolute_generation_rank: reader_total - current_total,
            ..current
        };
        infos.set(i, updated);
        i = i + 1;
    }
}

} // verus!
