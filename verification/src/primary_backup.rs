//! A simple primary-backup replication protocol: node 0 is the primary,
//! applies writes, replicates its whole table to the backups, and
//! acknowledges the writer. Messages travel in a length-prefixed wire
//! form whose decoder matches its model exactly.

use vstd::prelude::*;
use crate::codec::{
    push_framed, push_u64, read_framed, read_u64, spec_framed, spec_from_le64, spec_le64,
    spec_read_framed,
};
use crate::envelope::ProtoTag;
use crate::errors::CodecError;
use crate::ids::{NodeId, TimerId};
use crate::proto::{Ctx, FaultEvent, Protocol};
use crate::store::{copy_bytes, kv_contains, kv_list_put, kv_value, KvEntry};

verus! {

/// The message namespace of the primary-backup protocol.
pub const PB_TAG: u16 = 2;

/// The messages of the primary-backup protocol.
#[derive(Debug)]
pub enum PbMessage {
    WriteRequest { key: Vec<u8>, value: Vec<u8> },
    Ack { key: Vec<u8> },
    StateUpdate { state: Vec<KvEntry> },
}

/// The mathematical shape of a decoded message: a tag, two byte strings,
/// and a table, with the unused parts empty.
pub open spec fn spec_pb_view(m: PbMessage) -> (int, Seq<u8>, Seq<u8>, Seq<(Seq<u8>, Seq<u8>)>) {
    match m {
        PbMessage::WriteRequest { key, value } => (0int, key@, value@, Seq::empty()),
        PbMessage::Ack { key } => (1int, key@, Seq::empty(), Seq::empty()),
        PbMessage::StateUpdate { state } => (
            2int,
            Seq::empty(),
            Seq::empty(),
            spec_entries_view(state@),
        ),
    }
}

/// The table a list of entries denotes: its keys and values.
pub open spec fn spec_entries_view(s: Seq<KvEntry>) -> Seq<(Seq<u8>, Seq<u8>)> {
    Seq::new(s.len(), |i: int| (s[i].key@, s[i].value@))
}

/// The wire form of a table: each entry's key and value, framed, in
/// order.
pub open spec fn spec_encode_entries(es: Seq<(Seq<u8>, Seq<u8>)>) -> Seq<u8>
    decreases es.len(),
{
    if es.len() == 0 {
        Seq::empty()
    } else {
        spec_framed(es[0].0) + spec_framed(es[0].1) + spec_encode_entries(es.drop_first())
    }
}

/// The wire form of a message: a tag byte, then framed fields; a table
/// is preceded by its entry count.
pub open spec fn spec_encode_pb(m: PbMessage) -> Seq<u8> {
    match m {
        PbMessage::WriteRequest { key, value } => seq![0u8] + spec_framed(key@) + spec_framed(
            value@,
        ),
        PbMessage::Ack { key } => seq![1u8] + spec_framed(key@),
        PbMessage::StateUpdate { state } => seq![2u8] + spec_le64(state@.len() as u64)
            + spec_encode_entries(spec_entries_view(state@)),
    }
}

/// Reads `k` framed key-value pairs starting at `off`: the pairs and the
/// offset past them, or nothing when the buffer runs short.
pub open spec fn spec_read_entries(b: Seq<u8>, off: int, k: nat) -> Option<
    (Seq<(Seq<u8>, Seq<u8>)>, int),
>
    decreases k,
{
    if k == 0 {
        Some((Seq::empty(), off))
    } else {
        match spec_read_framed(b, off) {
            Some(key_read) => match spec_read_framed(b, key_read.1) {
                Some(val_read) => match spec_read_entries(b, val_read.1, (k - 1) as nat) {
                    Some(rest) => Some(
                        (seq![(key_read.0, val_read.0)] + rest.0, rest.1),
                    ),
                    None => None,
                },
                None => None,
            },
            None => None,
        }
    }
}

/// The message model a byte string denotes, if any. Trailing bytes are
/// rejected.
pub open spec fn spec_decode_pb(b: Seq<u8>) -> Option<
    (int, Seq<u8>, Seq<u8>, Seq<(Seq<u8>, Seq<u8>)>),
> {
    if b.len() >= 1 && b[0] == 0u8 {
        match spec_read_framed(b, 1) {
            Some(key_read) => match spec_read_framed(b, key_read.1) {
                Some(val_read) => if val_read.1 == b.len() {
                    Some((0int, key_read.0, val_read.0, Seq::empty()))
                } else {
                    None
                },
                None => None,
            },
            None => None,
        }
    } else if b.len() >= 1 && b[0] == 1u8 {
        match spec_read_framed(b, 1) {
            Some(key_read) => if key_read.1 == b.len() {
                Some((1int, key_read.0, Seq::empty(), Seq::empty()))
            } else {
                None
            },
            None => None,
        }
    } else if b.len() >= 9 && b[0] == 2u8 {
        let count = spec_from_le64(b.subrange(1, 9));
        match spec_read_entries(b, 9, count as nat) {
            Some(entries_read) => if entries_read.1 == b.len() {
                Some((2int, Seq::empty(), Seq::empty(), entries_read.0))
            } else {
                None
            },
            None => None,
        }
    } else {
        None
    }
}

/// Encodes a message, matching `spec_encode_pb`.
pub fn encode_pb(m: &PbMessage) -> (b: Vec<u8>)
    ensures
        b@ == spec_encode_pb(*m),
{
    let mut b: Vec<u8> = Vec::new();
    match m {
        PbMessage::WriteRequest { key, value } => {
            b.push(0);
            push_framed(&mut b, key);
            push_framed(&mut b, value);
            proof {
                assert(b@ =~= spec_encode_pb(*m));
            }
        },
        PbMessage::Ack { key } => {
            b.push(1);
            push_framed(&mut b, key);
            proof {
                assert(b@ =~= spec_encode_pb(*m));
            }
        },
        PbMessage::StateUpdate { state } => {
            b.push(2);
            push_u64(&mut b, state.len() as u64);
            let n = state.len();
            let mut i: usize = 0;
            proof {
                assert(spec_entries_view(state@).skip(0) =~= spec_entries_view(state@));
            }
            while i < n
                invariant
                    n == state@.len(),
                    0 <= i <= n,
                    b@ + spec_encode_entries(spec_entries_view(state@).skip(i as int)) == seq![
                        2u8,
                    ] + spec_le64(state@.len() as u64) + spec_encode_entries(
                        spec_entries_view(state@),
                    ),
                decreases n - i,
            {
                let ghost pre = b@;
                let ghost tail = spec_entries_view(state@).skip(i as int);
                let entry = &state[i];
                push_framed(&mut b, &entry.key);
                push_framed(&mut b, &entry.value);
                proof {
                    assert(tail[0] == (state@[i as int].key@, state@[i as int].value@));
                    assert(tail.drop_first() =~= spec_entries_view(state@).skip(i + 1));
                    assert(spec_encode_entries(tail) == spec_framed(state@[i as int].key@)
                        + spec_framed(state@[i as int].value@) + spec_encode_entries(
                        spec_entries_view(state@).skip(i + 1),
                    ));
                    assert(b@ + spec_encode_entries(spec_entries_view(state@).skip(i + 1)) =~= pre
                        + spec_encode_entries(tail));
                }
                i = i + 1;
            }
            proof {
                assert(spec_entries_view(state@).skip(n as int).len() == 0);
                assert(b@ + Seq::<u8>::empty() =~= b@);
                assert(b@ =~= spec_encode_pb(*m));
            }
        },
    }
    b
}

/// Decodes a message, matching `spec_decode_pb` on the model.
pub fn decode_pb(b: &Vec<u8>) -> (r: Option<PbMessage>)
    ensures
        match r {
            Some(m) => spec_decode_pb(b@) == Some(spec_pb_view(m)),
            None => spec_decode_pb(b@) is None,
        },
{
    let len = b.len();
    if len >= 1 && b[0] == 0 {
        let key_read = match read_framed(b, 1) {
            Some(p) => p,
            None => {
                return None;
            },
        };
        let val_read = match read_framed(b, key_read.1) {
            Some(p) => p,
            None => {
                return None;
            },
        };
        if val_read.1 != len {
            return None;
        }
        Some(PbMessage::WriteRequest { key: key_read.0, value: val_read.0 })
    } else if len >= 1 && b[0] == 1 {
        let key_read = match read_framed(b, 1) {
            Some(p) => p,
            None => {
                return None;
            },
        };
        if key_read.1 != len {
            return None;
        }
        Some(PbMessage::Ack { key: key_read.0 })
    } else if len >= 9 && b[0] == 2 {
        let count = read_u64(b, 1);
        let mut entries: Vec<KvEntry> = Vec::new();
        let mut off: usize = 9;
        let mut j: u64 = 0;
        while j < count
            invariant
                len == b@.len(),
                len >= 9,
                b@[0] == 2u8,
                count == spec_from_le64(b@.subrange(1, 9)),
                0 <= j <= count,
                entries@.len() == j,
                9 <= off <= len,
                forall|rest: Seq<(Seq<u8>, Seq<u8>)>, end: int|
                    spec_read_entries(b@, off as int, (count - j) as nat) == Some(
                        (rest, end),
                    ) ==> spec_read_entries(b@, 9, count as nat) == Some(
                        (spec_entries_view(entries@) + rest, end),
                    ),
                spec_read_entries(b@, off as int, (count - j) as nat) is None
                    ==> spec_read_entries(b@, 9, count as nat) is None,
            decreases count - j,
        {
            let ghost k_left = (count - j) as nat;
            let key_read = match read_framed(b, off) {
                Some(p) => p,
                None => {
                    proof {
                        assert(spec_read_entries(b@, off as int, k_left) is None);
                    }
                    return None;
                },
            };
            let val_read = match read_framed(b, key_read.1) {
                Some(p) => p,
                None => {
                    proof {
                        assert(spec_read_entries(b@, off as int, k_left) is None);
                    }
                    return None;
                },
            };
            let ghost pre_entries = entries@;
            entries.push(KvEntry { key: key_read.0, value: val_read.0 });
            proof {
                assert(spec_entries_view(entries@) =~= spec_entries_view(pre_entries) + seq![
                    (key_read.0@, val_read.0@),
                ]);
                assert forall|rest: Seq<(Seq<u8>, Seq<u8>)>, end: int|
                    spec_read_entries(b@, val_read.1 as int, (k_left - 1) as nat) == Some(
                        (rest, end),
                    ) implies spec_read_entries(b@, 9, count as nat) == Some(
                    (spec_entries_view(entries@) + rest, end),
                ) by {
                    assert(spec_read_entries(b@, off as int, k_left) == Some(
                        (seq![(key_read.0@, val_read.0@)] + rest, end),
                    ));
                    assert(spec_entries_view(pre_entries) + (seq![(key_read.0@, val_read.0@)]
                        + rest) =~= spec_entries_view(entries@) + rest);
                }
                if spec_read_entries(b@, val_read.1 as int, (k_left - 1) as nat) is None {
                    assert(spec_read_entries(b@, off as int, k_left) is None);
                }
            }
            off = val_read.1;
            j = j + 1;
        }
        if off != len {
            proof {
                assert(spec_read_entries(b@, off as int, 0) == Some(
                    (Seq::<(Seq<u8>, Seq<u8>)>::empty(), off as int),
                ));
                assert(spec_read_entries(b@, 9, count as nat) == Some(
                    (spec_entries_view(entries@) + Seq::<(Seq<u8>, Seq<u8>)>::empty(), off as int),
                ));
            }
            return None;
        }
        proof {
            assert(spec_read_entries(b@, off as int, 0) == Some(
                (Seq::<(Seq<u8>, Seq<u8>)>::empty(), off as int),
            ));
            assert(spec_entries_view(entries@) + Seq::<(Seq<u8>, Seq<u8>)>::empty()
                =~= spec_entries_view(entries@));
            assert(spec_read_entries(b@, 9, count as nat) == Some(
                (spec_entries_view(entries@), off as int),
            ));
        }
        Some(PbMessage::StateUpdate { state: entries })
    } else {
        None
    }
}

/// A framed write request decodes to its two fields.
#[verifier::spinoff_prover]
#[verifier::rlimit(100)]
proof fn lemma_pb_round_trip_write(key: Seq<u8>, value: Seq<u8>)
    requires
        key.len() <= u64::MAX,
        value.len() <= u64::MAX,
    ensures
        spec_decode_pb(seq![0u8] + spec_framed(key) + spec_framed(value)) == Some(
            (0int, key, value, Seq::<(Seq<u8>, Seq<u8>)>::empty()),
        ),
{
    let b = seq![0u8] + spec_framed(key) + spec_framed(value);
    let o1: int = 9 + key.len() as int;
    let o2: int = o1 + 8 + value.len() as int;
    assert(b.len() == o2);
    assert(b.subrange(1, 9) =~= spec_le64(key.len() as u64));
    assert(b.subrange(9, o1) =~= key);
    crate::codec::lemma_read_framed_mid(b, 1, key);
    assert(b.subrange(o1, o1 + 8) =~= spec_le64(value.len() as u64));
    assert(b.subrange(o1 + 8, o2) =~= value);
    crate::codec::lemma_read_framed_mid(b, o1, value);
    assert(b[0] == 0u8);
}

/// A framed acknowledgment decodes to its key.
#[verifier::spinoff_prover]
#[verifier::rlimit(100)]
proof fn lemma_pb_round_trip_ack(key: Seq<u8>)
    requires
        key.len() <= u64::MAX,
    ensures
        spec_decode_pb(seq![1u8] + spec_framed(key)) == Some(
            (1int, key, Seq::<u8>::empty(), Seq::<(Seq<u8>, Seq<u8>)>::empty()),
        ),
{
    let b = seq![1u8] + spec_framed(key);
    crate::codec::lemma_read_framed_round(seq![1u8], key, Seq::empty());
    assert(seq![1u8] + spec_framed(key) + Seq::<u8>::empty() =~= b);
    assert(spec_read_framed(b, 1) == Some((key, 1 + 8 + key.len() as int)));
    assert(b.len() == 1 + 8 + key.len());
    assert(b[0] == 1u8);
}

/// Decoding an encoded write request or acknowledgment yields it back.
pub proof fn lemma_pb_round_trip_flat(m: PbMessage)
    requires
        !(m is StateUpdate),
        (m matches PbMessage::WriteRequest { key, value } ==> key@.len() <= u64::MAX
            && value@.len() <= u64::MAX),
        (m matches PbMessage::Ack { key } ==> key@.len() <= u64::MAX),
    ensures
        spec_decode_pb(spec_encode_pb(m)) == Some(spec_pb_view(m)),
{
    match m {
        PbMessage::WriteRequest { key, value } => {
            lemma_pb_round_trip_write(key@, value@);
        },
        PbMessage::Ack { key } => {
            lemma_pb_round_trip_ack(key@);
        },
        PbMessage::StateUpdate { .. } => {},
    }
}

/// The primary-backup protocol instance hosted on one node.
pub struct PrimaryBackup {
    pub id: NodeId,
    /// The initial primary is node 0.
    pub primary: NodeId,
    pub is_primary: bool,
    pub peers: Vec<NodeId>,
    /// The replicated table, in insertion order.
    pub data: Vec<KvEntry>,
}

impl PrimaryBackup {
    pub fn new() -> (p: PrimaryBackup)
        ensures
            p.primary == 0,
            p.data@.len() == 0,
            !p.is_primary,
    {
        PrimaryBackup {
            id: 0,
            primary: 0,
            is_primary: false,
            peers: Vec::new(),
            data: Vec::new(),
        }
    }
}

/// Whether every key of a table is distinct.
fn entries_unique(v: &Vec<KvEntry>) -> (r: bool)
    ensures
        r == (forall|a: int, b: int|
            0 <= a < b < v@.len() ==> (#[trigger] v@[a]).key@ != (#[trigger] v@[b]).key@),
{
    let n = v.len();
    let mut a: usize = 0;
    while a < n
        invariant
            n == v@.len(),
            0 <= a <= n,
            forall|x: int, y: int|
                0 <= x < y < v@.len() && x < a ==> (#[trigger] v@[x]).key@ != (
                #[trigger] v@[y]).key@,
        decreases n - a,
    {
        let mut b: usize = a + 1;
        while b < n
            invariant
                n == v@.len(),
                0 <= a < b <= n,
                forall|y: int| a < y < b ==> (#[trigger] v@[y]).key@ != v@[a as int].key@,
            decreases n - b,
        {
            if crate::store::vec_u8_eq(&v[a].key, &v[b].key) {
                return false;
            }
            b = b + 1;
        }
        a = a + 1;
    }
    true
}

/// A copy of a table, entry for entry.
fn copy_entries(v: &Vec<KvEntry>) -> (r: Vec<KvEntry>)
    ensures
        spec_entries_view(r@) == spec_entries_view(v@),
        r@.len() == v@.len(),
{
    let mut r: Vec<KvEntry> = Vec::new();
    let n = v.len();
    let mut i: usize = 0;
    while i < n
        invariant
            n == v@.len(),
            0 <= i <= n,
            r@.len() == i,
            forall|m: int|
                0 <= m < i ==> (#[trigger] r@[m]).key@ == v@[m].key@ && r@[m].value@
                    == v@[m].value@,
        decreases n - i,
    {
        let e = &v[i];
        r.push(KvEntry { key: copy_bytes(&e.key), value: copy_bytes(&e.value) });
        i = i + 1;
    }
    proof {
        assert(spec_entries_view(r@) =~= spec_entries_view(v@));
    }
    r
}

impl Protocol for PrimaryBackup {
    fn name(&self) -> &'static str {
        "primary_backup"
    }

    fn proto_tag(&self) -> (t: ProtoTag)
        ensures
            t == ProtoTag(PB_TAG),
    {
        ProtoTag(PB_TAG)
    }

    /// Learns its id and peers; node 0 takes the primary role.
    fn init(&mut self, ctx: &mut Ctx)
        ensures
            final(self).id == old(ctx).node_id,
            final(self).is_primary == (old(ctx).node_id == final(self).primary),
    {
        self.id = ctx.node_id();
        self.is_primary = self.id == self.primary;
        self.peers = crate::node::copy_node_ids(&ctx.peers);
        let role = if self.is_primary {
            String::from_str("primary")
        } else {
            String::from_str("backup")
        };
        ctx.log_kv(String::from_str("role"), role);
    }

    /// A write reaches the primary: it applies the write to its table,
    /// replicates the whole table to its peers, and acknowledges the
    /// writer. A state update reaches a backup: it adopts the table.
    /// Anything else changes nothing.
    fn on_message(&mut self, ctx: &mut Ctx, src: NodeId, bytes: &Vec<u8>) -> (r: Result<
        (),
        CodecError,
    >)
        ensures
            spec_decode_pb(bytes@) is None ==> r is Err,
            r is Ok ==> spec_decode_pb(bytes@) is Some,
            forall|k: Seq<u8>, v: Seq<u8>|
                spec_decode_pb(bytes@) == Some((0int, k, v, Seq::<(Seq<u8>, Seq<u8>)>::empty()))
                    && old(self).is_primary && (forall|a: int, b2: int|
                    0 <= a < b2 < old(self).data@.len() ==> (#[trigger] old(self).data@[a]).key@
                        != (#[trigger] old(self).data@[b2]).key@) ==> kv_contains(
                    final(self).data@,
                    k,
                ) && kv_value(final(self).data@, k) == v,
            forall|es: Seq<(Seq<u8>, Seq<u8>)>|
                spec_decode_pb(bytes@) == Some((2int, Seq::<u8>::empty(), Seq::<u8>::empty(), es))
                    && !old(self).is_primary ==> spec_entries_view(final(self).data@) == es,
    {
        let decoded = match decode_pb(bytes) {
            Some(m) => m,
            None => {
                return Err(
                    CodecError {
                        detail: String::from_str("primary_backup: unrecognized message bytes"),
                    },
                );
            },
        };
        match decoded {
            PbMessage::WriteRequest { key, value } => {
                if self.is_primary {
                    let key_copy = copy_bytes(&key);
                    if !entries_unique(&self.data) {
                        // A table with repeated keys cannot be updated
                        // coherently; only an adopted backup table could
                        // hold one, and a backup never applies writes.
                        return Ok(());
                    }
                    kv_list_put(&mut self.data, copy_bytes(&key), copy_bytes(&value));
                    let update = PbMessage::StateUpdate { state: copy_entries(&self.data) };
                    let update_bytes = encode_pb(&update);
                    ctx.broadcast_raw(ProtoTag(PB_TAG), &update_bytes);
                    let ack = PbMessage::Ack { key: key_copy };
                    let ack_bytes = encode_pb(&ack);
                    ctx.send_raw(src, ProtoTag(PB_TAG), ack_bytes);
                }
                Ok(())
            },
            PbMessage::StateUpdate { state } => {
                if !self.is_primary {
                    self.data = state;
                }
                Ok(())
            },
            PbMessage::Ack { key: _ } => Ok(()),
        }
    }

    /// The primary-backup protocol sets no timers.
    fn on_timer(&mut self, ctx: &mut Ctx, timer: TimerId)
        ensures
            *final(ctx) == *old(ctx),
            *final(self) == *old(self),
    {
    }

    /// Fault notifications only surface in the visualization.
    fn on_fault(&mut self, ctx: &mut Ctx, fault: FaultEvent)
        ensures
            *final(self) == *old(self),
    {
        match fault {
            FaultEvent::NodeCrashed => {
                ctx.log_kv(String::from_str("status"), String::from_str("crashed"));
            },
            FaultEvent::NodeRecovered => {
                ctx.log_kv(String::from_str("status"), String::from_str("recovered"));
            },
            _ => {},
        }
    }
}

} // verus!
