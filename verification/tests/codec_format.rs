//! Wire-format round trips and the human-readable renderings.

use ftsim::codec::{push_framed, push_u16, push_u32, push_u64, read_framed, read_u16, read_u32, read_u64};
use ftsim::echo::{decode_echo, encode_echo, EchoMessage};
use ftsim::fmt::{format_sim_time, u128_to_string, u64_to_string};
use ftsim::primary_backup::{decode_pb, encode_pb, PbMessage};
use ftsim::raft_lite::{
    decode_raft, encode_raft, AppendEntries, AppendEntriesReply, RaftMessage, RequestVote,
    RequestVoteReply,
};
use ftsim::sim::decode_hex;
use ftsim::store::KvEntry;

#[test]
fn integer_fields_round_trip() {
    let mut buf: Vec<u8> = Vec::new();
    push_u64(&mut buf, 0xdead_beef_0102_0304);
    push_u32(&mut buf, 0xa1b2_c3d4);
    push_u16(&mut buf, 0x7f01);
    assert_eq!(buf.len(), 14);
    assert_eq!(read_u64(&buf, 0), 0xdead_beef_0102_0304);
    assert_eq!(read_u32(&buf, 8), 0xa1b2_c3d4);
    assert_eq!(read_u16(&buf, 12), 0x7f01);
}

#[test]
fn framed_bytes_round_trip() {
    let mut buf: Vec<u8> = Vec::new();
    push_framed(&mut buf, &vec![9, 8, 7]);
    push_framed(&mut buf, &Vec::new());
    let (first, off) = read_framed(&buf, 0).unwrap();
    assert_eq!(first, vec![9, 8, 7]);
    let (second, end) = read_framed(&buf, off).unwrap();
    assert_eq!(second, Vec::<u8>::new());
    assert_eq!(end, buf.len());
    assert!(read_framed(&buf, end).is_none());
}

#[test]
fn echo_messages_round_trip() {
    for m in [EchoMessage::Ping, EchoMessage::Pong] {
        let bytes = encode_echo(m);
        assert_eq!(decode_echo(&bytes), Some(m));
    }
    assert_eq!(decode_echo(&vec![2]), None);
    assert_eq!(decode_echo(&vec![]), None);
    assert_eq!(decode_echo(&vec![0, 0]), None);
}

#[test]
fn raft_messages_round_trip() {
    let messages = [
        RaftMessage::RequestVote(RequestVote {
            term: 7,
            candidate_id: 3,
            last_log_index: 11,
            last_log_term: 6,
        }),
        RaftMessage::RequestVoteReply(RequestVoteReply { term: 7, vote_granted: true }),
        RaftMessage::RequestVoteReply(RequestVoteReply { term: 0, vote_granted: false }),
        RaftMessage::AppendEntries(AppendEntries { term: u64::MAX, leader_id: 0 }),
        RaftMessage::AppendEntriesReply(AppendEntriesReply { term: 2, success: false }),
    ];
    for m in messages {
        let bytes = encode_raft(&m);
        assert_eq!(decode_raft(&bytes), Some(m));
    }
    assert_eq!(decode_raft(&vec![]), None);
    assert_eq!(decode_raft(&vec![9; 10]), None);
    // A truncated vote request is rejected.
    let mut bytes = encode_raft(&messages[0]);
    bytes.pop();
    assert_eq!(decode_raft(&bytes), None);
}

#[test]
fn primary_backup_messages_round_trip() {
    let write = PbMessage::WriteRequest { key: b"alpha".to_vec(), value: b"one".to_vec() };
    let bytes = encode_pb(&write);
    match decode_pb(&bytes) {
        Some(PbMessage::WriteRequest { key, value }) => {
            assert_eq!(key, b"alpha".to_vec());
            assert_eq!(value, b"one".to_vec());
        },
        other => panic!("unexpected decode: {:?}", other),
    }

    let ack = PbMessage::Ack { key: b"alpha".to_vec() };
    let bytes = encode_pb(&ack);
    match decode_pb(&bytes) {
        Some(PbMessage::Ack { key }) => assert_eq!(key, b"alpha".to_vec()),
        other => panic!("unexpected decode: {:?}", other),
    }

    let update = PbMessage::StateUpdate {
        state: vec![
            KvEntry { key: b"a".to_vec(), value: b"1".to_vec() },
            KvEntry { key: b"b".to_vec(), value: b"2".to_vec() },
        ],
    };
    let bytes = encode_pb(&update);
    match decode_pb(&bytes) {
        Some(PbMessage::StateUpdate { state }) => {
            assert_eq!(state.len(), 2);
            assert_eq!(state[0].key, b"a".to_vec());
            assert_eq!(state[0].value, b"1".to_vec());
            assert_eq!(state[1].key, b"b".to_vec());
            assert_eq!(state[1].value, b"2".to_vec());
        },
        other => panic!("unexpected decode: {:?}", other),
    }

    // Trailing bytes are rejected.
    let mut bytes = encode_pb(&PbMessage::Ack { key: b"k".to_vec() });
    bytes.push(0);
    assert!(decode_pb(&bytes).is_none());
    assert!(decode_pb(&vec![3, 0, 0]).is_none());
}

#[test]
fn hex_decoding_is_exact() {
    assert_eq!(decode_hex(&String::from("00ff10Ab")).unwrap(), vec![0x00, 0xff, 0x10, 0xab]);
    assert_eq!(decode_hex(&String::from("")).unwrap(), Vec::<u8>::new());
    assert!(decode_hex(&String::from("abc")).is_err());
    assert!(decode_hex(&String::from("zz")).is_err());
}

#[test]
fn decimal_rendering_is_exact() {
    assert_eq!(u64_to_string(0), "0");
    assert_eq!(u64_to_string(12345), "12345");
    assert_eq!(u64_to_string(u64::MAX), "18446744073709551615");
    assert_eq!(u128_to_string(340282366920938463463374607431768211455), "340282366920938463463374607431768211455");
}

#[test]
fn sim_time_rendering_scales_units() {
    assert_eq!(format_sim_time(0), "0ns");
    assert_eq!(format_sim_time(999), "999ns");
    assert_eq!(format_sim_time(1_500), "1.5us");
    assert_eq!(format_sim_time(10_000_000), "10.0ms");
    assert_eq!(format_sim_time(1_500_000_000), "1.5s");
    assert_eq!(ftsim::fmt::SimulationFormatter::format_sim_time(2_000), "2.0us");
}
