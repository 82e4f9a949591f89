//! The storage subsystem: a deterministic in-memory log and key-value
//! store per node, and the fault-injection layer that sits between a
//! protocol and its store.

use vstd::prelude::*;
use crate::errors::StoreError;
use crate::ids::NodeId;
use crate::prob::Bernoulli;
use crate::rng::{MasterRng, Site};

verus! {

/// The index of a record in a node's log. Indices are contiguous from 0.
pub type LogIndex = u64;

/// Kinds of storage faults that can be injected.
#[derive(Debug, Clone, Copy, PartialEq, Eq, Structural)]
pub enum StoreFaultKind {
    WriteError,
    TornWrite,
    StaleRead,
    ReadError,
    FsyncFail,
    FsyncDelay,
}

/// A single entry of a node's persistent log.
#[derive(Debug, Clone, PartialEq, Eq)]
pub struct LogRecord {
    pub term: u64,
    pub data: Vec<u8>,
}

/// The per-node rates at which each storage fault is injected. A zero rate
/// elides the corresponding draw entirely.
#[derive(Debug, Clone, Copy, PartialEq, Eq, Structural)]
pub struct StoreFaultModel {
    pub fsync_fail: Bernoulli,
    pub fsync_delay: Bernoulli,
    pub write_error: Bernoulli,
    pub read_error: Bernoulli,
    pub torn_write: Bernoulli,
    pub stale_read: Bernoulli,
}

impl StoreFaultModel {
    /// The model under which no fault is ever injected.
    pub fn none() -> (m: StoreFaultModel)
        ensures
            m.spec_is_none(),
    {
        StoreFaultModel {
            fsync_fail: Bernoulli::never(),
            fsync_delay: Bernoulli::never(),
            write_error: Bernoulli::never(),
            read_error: Bernoulli::never(),
            torn_write: Bernoulli::never(),
            stale_read: Bernoulli::never(),
        }
    }

    /// True when every rate is zero: storage behaves ideally.
    pub open spec fn spec_is_none(self) -> bool {
        self.fsync_fail.ppm == 0 && self.fsync_delay.ppm == 0 && self.write_error.ppm == 0
            && self.read_error.ppm == 0 && self.torn_write.ppm == 0 && self.stale_read.ppm == 0
    }

    /// The model with one rate replaced.
    pub fn with_rate(self, kind: StoreFaultKind, rate: Bernoulli) -> (m: StoreFaultModel)
        ensures
            m == self.spec_with_rate(kind, rate),
    {
        match kind {
            StoreFaultKind::FsyncFail => StoreFaultModel { fsync_fail: rate, ..self },
            StoreFaultKind::FsyncDelay => StoreFaultModel { fsync_delay: rate, ..self },
            StoreFaultKind::WriteError => StoreFaultModel { write_error: rate, ..self },
            StoreFaultKind::ReadError => StoreFaultModel { read_error: rate, ..self },
            StoreFaultKind::TornWrite => StoreFaultModel { torn_write: rate, ..self },
            StoreFaultKind::StaleRead => StoreFaultModel { stale_read: rate, ..self },
        }
    }

    pub open spec fn spec_with_rate(self, kind: StoreFaultKind, rate: Bernoulli) -> StoreFaultModel {
        match kind {
            StoreFaultKind::FsyncFail => StoreFaultModel { fsync_fail: rate, ..self },
            StoreFaultKind::FsyncDelay => StoreFaultModel { fsync_delay: rate, ..self },
            StoreFaultKind::WriteError => StoreFaultModel { write_error: rate, ..self },
            StoreFaultKind::ReadError => StoreFaultModel { read_error: rate, ..self },
            StoreFaultKind::TornWrite => StoreFaultModel { torn_write: rate, ..self },
            StoreFaultKind::StaleRead => StoreFaultModel { stale_read: rate, ..self },
        }
    }
}

/// One key-value entry of the in-memory store.
#[derive(Debug, Clone)]
pub struct KvEntry {
    pub key: Vec<u8>,
    pub value: Vec<u8>,
}

/// Whether an association list holds the given key.
pub open spec fn kv_contains(s: Seq<KvEntry>, k: Seq<u8>) -> bool {
    exists|i: int| 0 <= i < s.len() && s[i].key@ == k
}

/// The value an association list holds for a key it contains.
pub open spec fn kv_value(s: Seq<KvEntry>, k: Seq<u8>) -> Seq<u8> {
    let i = choose|i: int| 0 <= i < s.len() && s[i].key@ == k;
    s[i].value@
}

/// An in-memory log and key-value store: the deterministic storage backend
/// behind every node.
#[derive(Debug)]
pub struct MemStore {
    pub log: Vec<LogRecord>,
    pub kv: Vec<KvEntry>,
}

impl MemStore {
    /// Well-formed: each key appears at most once.
    pub open spec fn wf(self) -> bool {
        forall|i: int, j: int|
            0 <= i < j < self.kv.len() ==> self.kv[i].key@ != self.kv[j].key@
    }

    pub fn new() -> (s: MemStore)
        ensures
            s.log@.len() == 0,
            s.kv@.len() == 0,
            s.wf(),
    {
        MemStore { log: Vec::new(), kv: Vec::new() }
    }

    /// Appends a record to the log and returns its index. Indices are
    /// contiguous from 0.
    pub fn append_log(&mut self, rec: LogRecord) -> (r: Result<LogIndex, StoreError>)
        requires
            old(self).log@.len() < u64::MAX,
        ensures
            final(self).kv == old(self).kv,
            final(self).log@ == old(self).log@.push(rec),
            r == Ok::<LogIndex, StoreError>(old(self).log@.len() as u64),
            old(self).wf() ==> final(self).wf(),
    {
        let index: u64 = self.log.len() as u64;
        self.log.push(rec);
        Ok(index)
    }

    /// Reads the record at an index: the record for an index the log
    /// holds, nothing for one past the end.
    pub fn read_log(&self, idx: LogIndex) -> (r: Result<Option<LogRecord>, StoreError>)
        ensures
            idx < self.log@.len() ==> (match r {
                Ok(o) => o matches Some(rec) && rec.term == self.log@[idx as int].term
                    && rec.data@ == self.log@[idx as int].data@,
                Err(_) => false,
            }),
            idx >= self.log@.len() ==> r == Ok::<Option<LogRecord>, StoreError>(None),
    {
        if idx < self.log.len() as u64 {
            let rec = &self.log[idx as usize];
            Ok(Some(LogRecord { term: rec.term, data: copy_bytes(&rec.data) }))
        } else {
            Ok(None)
        }
    }

    /// Inserts or replaces the value for a key. Every other key keeps its
    /// binding.
    pub fn kv_put(&mut self, k: Vec<u8>, v: Vec<u8>) -> (r: Result<(), StoreError>)
        requires
            old(self).wf(),
        ensures
            final(self).wf(),
            final(self).log == old(self).log,
            r == Ok::<(), StoreError>(()),
            kv_contains(final(self).kv@, k@),
            kv_value(final(self).kv@, k@) == v@,
            forall|k2: Seq<u8>|
                k2 != k@ ==> kv_contains(final(self).kv@, k2) == kv_contains(old(self).kv@, k2),
            forall|k2: Seq<u8>|
                k2 != k@ && kv_contains(old(self).kv@, k2) ==> kv_value(final(self).kv@, k2)
                    == kv_value(old(self).kv@, k2),
    {
        kv_list_put(&mut self.kv, k, v);
        Ok(())
    }

    /// Looks a key up: its value when the store holds it, nothing
    /// otherwise.
    pub fn kv_get(&self, k: &Vec<u8>) -> (r: Result<Option<Vec<u8>>, StoreError>)
        requires
            self.wf(),
        ensures
            match r {
                Ok(o) => match o {
                    Some(v) => kv_contains(self.kv@, k@) && v@ == kv_value(self.kv@, k@),
                    None => !kv_contains(self.kv@, k@),
                },
                Err(_) => false,
            },
    {
        let n = self.kv.len();
        let mut i: usize = 0;
        while i < n
            invariant
                self.wf(),
                n == self.kv.len(),
                0 <= i <= n,
                forall|m: int| 0 <= m < i ==> self.kv[m].key@ != k@,
            decreases n - i,
        {
            if vec_u8_eq(&self.kv[i].key, k) {
                let v = copy_bytes(&self.kv[i].value);
                proof {
                    let j = choose|j: int| 0 <= j < self.kv@.len() && self.kv@[j].key@ == k@;
                    assert(self.kv@[i as int].key@ == k@);
                    assert(j == i as int);
                }
                return Ok(Some(v));
            }
            i = i + 1;
        }
        Ok(None)
    }

    /// Synchronizes the store; the in-memory backend has nothing to flush.
    pub fn fsync(&mut self) -> (r: Result<(), StoreError>)
        ensures
            *final(self) == *old(self),
            r == Ok::<(), StoreError>(()),
    {
        Ok(())
    }
}

/// Inserts or replaces the value for a key in an association list with
/// distinct keys, in place, keeping insertion order. Every other key
/// keeps its binding.
pub fn kv_list_put(list: &mut Vec<KvEntry>, k: Vec<u8>, v: Vec<u8>)
    requires
        forall|i: int, j: int| 0 <= i < j < old(list)@.len() ==> old(list)@[i].key@ != old(list)@[j].key@,
    ensures
        forall|i: int, j: int| 0 <= i < j < final(list)@.len() ==> final(list)@[i].key@ != final(list)@[j].key@,
        kv_contains(final(list)@, k@),
        kv_value(final(list)@, k@) == v@,
        forall|k2: Seq<u8>|
            k2 != k@ ==> kv_contains(final(list)@, k2) == kv_contains(old(list)@, k2),
        forall|k2: Seq<u8>|
            k2 != k@ && kv_contains(old(list)@, k2) ==> kv_value(final(list)@, k2) == kv_value(
                old(list)@,
                k2,
            ),
{
    let n = list.len();
    let mut i: usize = 0;
    while i < n
        invariant
            list == old(list),
            forall|a: int, b: int| 0 <= a < b < list@.len() ==> list@[a].key@ != list@[b].key@,
            n == list@.len(),
            0 <= i <= n,
            forall|m: int| 0 <= m < i ==> list@[m].key@ != k@,
        decreases n - i,
    {
        if vec_u8_eq(&list[i].key, &k) {
            let ghost old_kv = list@;
            let entry = &mut list[i];
            entry.value = v;
            proof {
                lemma_kv_update(old_kv, list@, i as int, k@);
            }
            return ;
        }
        i = i + 1;
    }
    let ghost old_kv = list@;
    list.push(KvEntry { key: k, value: v });
    proof {
        lemma_kv_insert_new(old_kv, list@, k@);
    }
}

proof fn lemma_kv_update(old_kv: Seq<KvEntry>, new_kv: Seq<KvEntry>, i: int, k: Seq<u8>)
    requires
        0 <= i < old_kv.len(),
        new_kv.len() == old_kv.len(),
        old_kv[i].key@ == k,
        new_kv[i].key@ == k,
        forall|m: int| 0 <= m < old_kv.len() && m != i ==> new_kv[m] == old_kv[m],
        forall|a: int, b: int| 0 <= a < b < old_kv.len() ==> old_kv[a].key@ != old_kv[b].key@,
    ensures
        kv_contains(new_kv, k),
        kv_value(new_kv, k) == new_kv[i].value@,
        forall|k2: Seq<u8>| k2 != k ==> kv_contains(new_kv, k2) == kv_contains(old_kv, k2),
        forall|k2: Seq<u8>|
            k2 != k && kv_contains(old_kv, k2) ==> kv_value(new_kv, k2) == kv_value(old_kv, k2),
        forall|a: int, b: int| 0 <= a < b < new_kv.len() ==> new_kv[a].key@ != new_kv[b].key@,
{
    assert(kv_contains(new_kv, k));
    let j = choose|j: int| 0 <= j < new_kv.len() && new_kv[j].key@ == k;
    if j != i {
        assert(old_kv[j].key@ == k);
        assert(old_kv[i].key@ == k);
        assert(false);
    }
    assert forall|k2: Seq<u8>| k2 != k implies kv_contains(new_kv, k2) == kv_contains(
        old_kv,
        k2,
    ) by {
        if kv_contains(new_kv, k2) {
            let a = choose|a: int| 0 <= a < new_kv.len() && new_kv[a].key@ == k2;
            assert(a != i);
            assert(old_kv[a].key@ == k2);
        }
        if kv_contains(old_kv, k2) {
            let a = choose|a: int| 0 <= a < old_kv.len() && old_kv[a].key@ == k2;
            assert(a != i);
            assert(new_kv[a].key@ == k2);
        }
    }
    assert forall|k2: Seq<u8>| k2 != k && kv_contains(old_kv, k2) implies kv_value(new_kv, k2)
        == kv_value(old_kv, k2) by {
        let a = choose|a: int| 0 <= a < old_kv.len() && old_kv[a].key@ == k2;
        let b = choose|b: int| 0 <= b < new_kv.len() && new_kv[b].key@ == k2;
        assert(a != i);
        assert(b != i);
        assert(old_kv[b].key@ == k2);
        if a != b {
            assert(false);
        }
    }
}

proof fn lemma_kv_insert_new(old_kv: Seq<KvEntry>, new_kv: Seq<KvEntry>, k: Seq<u8>)
    requires
        new_kv.len() == old_kv.len() + 1,
        forall|m: int| 0 <= m < old_kv.len() ==> new_kv[m] == old_kv[m],
        new_kv[old_kv.len() as int].key@ == k,
        !kv_contains(old_kv, k),
        forall|a: int, b: int| 0 <= a < b < old_kv.len() ==> old_kv[a].key@ != old_kv[b].key@,
    ensures
        kv_contains(new_kv, k),
        kv_value(new_kv, k) == new_kv[old_kv.len() as int].value@,
        forall|k2: Seq<u8>| k2 != k ==> kv_contains(new_kv, k2) == kv_contains(old_kv, k2),
        forall|k2: Seq<u8>|
            k2 != k && kv_contains(old_kv, k2) ==> kv_value(new_kv, k2) == kv_value(old_kv, k2),
        forall|a: int, b: int| 0 <= a < b < new_kv.len() ==> new_kv[a].key@ != new_kv[b].key@,
{
    let n = old_kv.len() as int;
    assert(kv_contains(new_kv, k));
    let j = choose|j: int| 0 <= j < new_kv.len() && new_kv[j].key@ == k;
    if j != n {
        assert(old_kv[j].key@ == k);
        assert(false);
    }
    assert forall|k2: Seq<u8>| k2 != k implies kv_contains(new_kv, k2) == kv_contains(
        old_kv,
        k2,
    ) by {
        if kv_contains(new_kv, k2) {
            let a = choose|a: int| 0 <= a < new_kv.len() && new_kv[a].key@ == k2;
            assert(a != n);
            assert(old_kv[a].key@ == k2);
        }
        if kv_contains(old_kv, k2) {
            let a = choose|a: int| 0 <= a < old_kv.len() && old_kv[a].key@ == k2;
            assert(new_kv[a].key@ == k2);
        }
    }
    assert forall|k2: Seq<u8>| k2 != k && kv_contains(old_kv, k2) implies kv_value(new_kv, k2)
        == kv_value(old_kv, k2) by {
        let a = choose|a: int| 0 <= a < old_kv.len() && old_kv[a].key@ == k2;
        let b = choose|b: int| 0 <= b < new_kv.len() && new_kv[b].key@ == k2;
        assert(b != n);
        assert(old_kv[b].key@ == k2);
        if a != b {
            assert(false);
        }
    }
    assert forall|a: int, b: int| 0 <= a < b < new_kv.len() implies new_kv[a].key@
        != new_kv[b].key@ by {
        if b == n {
            if new_kv[a].key@ == new_kv[b].key@ {
                assert(old_kv[a].key@ == k);
                assert(kv_contains(old_kv, k));
            }
        }
    }
}

/// A byte-for-byte copy of a byte vector.
pub fn copy_bytes(v: &Vec<u8>) -> (r: Vec<u8>)
    ensures
        r@ == v@,
{
    let mut r: Vec<u8> = Vec::new();
    let n = v.len();
    let mut i: usize = 0;
    while i < n
        invariant
            n == v.len(),
            0 <= i <= n,
            r@ == v@.subrange(0, i as int),
        decreases n - i,
    {
        r.push(v[i]);
        i = i + 1;
    }
    proof {
        assert(r@ =~= v@);
    }
    r
}

/// Byte-for-byte equality of two byte vectors.
pub fn vec_u8_eq(a: &Vec<u8>, b: &Vec<u8>) -> (r: bool)
    ensures
        r == (a@ == b@),
{
    if a.len() != b.len() {
        proof {
            assert(a@.len() != b@.len());
        }
        return false;
    }
    let n = a.len();
    let mut i: usize = 0;
    while i < n
        invariant
            n == a.len(),
            a@.len() == b@.len(),
            0 <= i <= n,
            forall|m: int| 0 <= m < i ==> a@[m] == b@[m],
        decreases n - i,
    {
        if a[i] != b[i] {
            return false;
        }
        i = i + 1;
    }
    proof {
        assert(a@ =~= b@);
    }
    true
}

/// The outcome of a log append through the fault layer: either the
/// successful index, or an injected fault. `write_error` is tried first,
/// then `torn_write`; a zero rate makes no draw.
pub fn append_log_with_faults(
    store: &mut MemStore,
    faults: &StoreFaultModel,
    rng: &mut MasterRng,
    node_id: NodeId,
    rec: LogRecord,
) -> (r: Result<LogIndex, StoreError>)
    requires
        old(store).log@.len() < u64::MAX,
    ensures
        match r {
            Ok(idx) => final(store).log@ == old(store).log@.push(rec) && idx == old(
                store,
            ).log@.len() && final(store).kv == old(store).kv,
            Err(e) => e == StoreError::FaultInjected && *final(store) == *old(store) && (
            faults.write_error.ppm > 0 || faults.torn_write.ppm > 0),
        },
        faults.spec_is_none() ==> r == Ok::<LogIndex, StoreError>(old(store).log@.len() as u64),
        faults.write_error.ppm == 0 && faults.torn_write.ppm == 0 ==> *final(rng) == *old(rng),
        old(store).wf() ==> final(store).wf(),
{
    if faults.write_error.ppm > 0 {
        let draw = rng.draw(Site::StoreAppendWriteError(node_id));
        if faults.write_error.hits(draw) {
            return Err(StoreError::FaultInjected);
        }
    }
    if faults.torn_write.ppm > 0 {
        let draw = rng.draw(Site::StoreAppendTornWrite(node_id));
        if faults.torn_write.hits(draw) {
            return Err(StoreError::FaultInjected);
        }
    }
    store.append_log(rec)
}

/// The outcome of a log read through the fault layer: the stored record,
/// an injected read error, or an injected stale read (`None` in place of
/// the record). A zero rate makes no draw.
pub fn read_log_with_faults(
    store: &MemStore,
    faults: &StoreFaultModel,
    rng: &mut MasterRng,
    node_id: NodeId,
    idx: LogIndex,
) -> (r: Result<Option<LogRecord>, StoreError>)
    ensures
        match r {
            Ok(o) => match o {
                Some(rec) => idx < store.log@.len() && rec.term == store.log@[idx as int].term
                    && rec.data@ == store.log@[idx as int].data@,
                None => idx >= store.log@.len() || faults.stale_read.ppm > 0,
            },
            Err(e) => e == StoreError::FaultInjected && faults.read_error.ppm > 0,
        },
        faults.spec_is_none() && idx < store.log@.len() ==> (match r {
            Ok(o) => o matches Some(rec) && rec.term == store.log@[idx as int].term && rec.data@
                == store.log@[idx as int].data@,
            Err(_) => false,
        }),
        faults.read_error.ppm == 0 && faults.stale_read.ppm == 0 ==> *final(rng) == *old(rng),
{
    if faults.read_error.ppm > 0 {
        let draw = rng.draw(Site::StoreReadError(node_id));
        if faults.read_error.hits(draw) {
            return Err(StoreError::FaultInjected);
        }
    }
    if faults.stale_read.ppm > 0 {
        let draw = rng.draw(Site::StoreStaleRead(node_id));
        if faults.stale_read.hits(draw) {
            return Ok(None);
        }
    }
    store.read_log(idx)
}

/// The outcome of an fsync through the fault layer: success, or an
/// injected failure. A zero rate makes no draw.
pub fn fsync_with_faults(
    store: &mut MemStore,
    faults: &StoreFaultModel,
    rng: &mut MasterRng,
    node_id: NodeId,
) -> (r: Result<(), StoreError>)
    ensures
        *final(store) == *old(store),
        match r {
            Ok(u) => true,
            Err(e) => e == StoreError::FaultInjected && faults.fsync_fail.ppm > 0,
        },
        faults.spec_is_none() ==> r == Ok::<(), StoreError>(()),
        faults.fsync_fail.ppm == 0 ==> *final(rng) == *old(rng),
{
    if faults.fsync_fail.ppm > 0 {
        let draw = rng.draw(Site::StoreFsync(node_id));
        if faults.fsync_fail.hits(draw) {
            return Err(StoreError::FaultInjected);
        }
    }
    store.fsync()
}

} // verus!

verus! {

/// The storage round trip: without injected faults, appending a record
/// and reading back the returned index yields the same record. The
/// executable side of this law is the contract pair of `append_log` and
/// `read_log`: an append under a silent fault model extends the log at
/// index `log.len()`, and a read of any held index returns the record
/// there.
pub proof fn lemma_storage_round_trip(s: MemStore, rec: LogRecord)
    requires
        s.log@.len() < u64::MAX,
    ensures
        ({
            let appended = s.log@.push(rec);
            let idx = s.log@.len() as u64;
            idx < appended.len() && appended[idx as int] == rec
        }),
{
}

} // verus!
