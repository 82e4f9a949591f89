//! The echo protocol: each node greets every peer once at start-up, and
//! answers every greeting. The simplest exerciser of the send path.

use vstd::prelude::*;
use crate::envelope::ProtoTag;
use crate::errors::CodecError;
use crate::ids::{NodeId, TimerId};
use crate::proto::{Ctx, FaultEvent, Protocol};

verus! {

/// The message namespace of the echo protocol.
pub const ECHO_TAG: u16 = 3;

/// The two messages of the echo protocol.
#[derive(Debug, Clone, Copy, PartialEq, Eq, Structural)]
pub enum EchoMessage {
    Ping,
    Pong,
}

/// The one-byte wire form of an echo message.
pub open spec fn spec_encode_echo(m: EchoMessage) -> Seq<u8> {
    match m {
        EchoMessage::Ping => seq![0u8],
        EchoMessage::Pong => seq![1u8],
    }
}

/// The message one byte denotes, if any.
pub open spec fn spec_decode_echo(b: Seq<u8>) -> Option<EchoMessage> {
    if b == seq![0u8] {
        Some(EchoMessage::Ping)
    } else if b == seq![1u8] {
        Some(EchoMessage::Pong)
    } else {
        None
    }
}

/// Decoding an encoded echo message yields the message.
pub proof fn lemma_echo_round_trip(m: EchoMessage)
    ensures
        spec_decode_echo(spec_encode_echo(m)) == Some(m),
{
    assert(spec_encode_echo(m) != seq![0u8] || m is Ping);
    assert(seq![1u8][0] != seq![0u8][0]);
}

/// Encodes an echo message, matching `spec_encode_echo`.
pub fn encode_echo(m: EchoMessage) -> (b: Vec<u8>)
    ensures
        b@ == spec_encode_echo(m),
{
    let mut b: Vec<u8> = Vec::new();
    match m {
        EchoMessage::Ping => b.push(0),
        EchoMessage::Pong => b.push(1),
    }
    proof {
        assert(b@ =~= spec_encode_echo(m));
    }
    b
}

/// Decodes an echo message, matching `spec_decode_echo`.
pub fn decode_echo(b: &Vec<u8>) -> (r: Option<EchoMessage>)
    ensures
        r == spec_decode_echo(b@),
{
    if b.len() == 1 {
        if b[0] == 0 {
            proof {
                assert(b@ =~= seq![0u8]);
            }
            Some(EchoMessage::Ping)
        } else if b[0] == 1 {
            proof {
                assert(b@ =~= seq![1u8]);
                assert(b@ != seq![0u8]);
            }
            Some(EchoMessage::Pong)
        } else {
            proof {
                assert(b@ != seq![0u8] && b@ != seq![1u8]);
            }
            None
        }
    } else {
        proof {
            assert(b@ != seq![0u8] && b@ != seq![1u8]);
        }
        None
    }
}

/// The echo protocol instance hosted on one node.
#[derive(Debug, Clone, Copy, PartialEq, Eq, Structural)]
pub struct EchoProto {
    /// How many greetings this node has answered.
    pub pongs_sent: u64,
}

impl EchoProto {
    pub fn new() -> (p: EchoProto)
        ensures
            p.pongs_sent == 0,
    {
        EchoProto { pongs_sent: 0 }
    }
}

impl Protocol for EchoProto {
    fn name(&self) -> &'static str {
        "echo"
    }

    fn proto_tag(&self) -> (t: ProtoTag)
        ensures
            t == ProtoTag(ECHO_TAG),
    {
        ProtoTag(ECHO_TAG)
    }

    /// Greets every peer once.
    fn init(&mut self, ctx: &mut Ctx)
        ensures
            *final(self) == *old(self),
            forall|i: int|
                old(ctx).outbox@.len() <= i < final(ctx).outbox@.len() ==> (
                #[trigger] final(ctx).outbox@[i]).payload@ == spec_encode_echo(EchoMessage::Ping),
    {
        let ping = encode_echo(EchoMessage::Ping);
        ctx.broadcast_raw(ProtoTag(ECHO_TAG), &ping);
    }

    /// Answers a greeting with one reply to its sender; replies and
    /// undecodable bytes cause nothing.
    fn on_message(&mut self, ctx: &mut Ctx, src: NodeId, bytes: &Vec<u8>) -> (r: Result<
        (),
        CodecError,
    >)
        ensures
            spec_decode_echo(bytes@) == Some(EchoMessage::Ping) ==> r is Ok
                && final(ctx).outbox@.len() == old(ctx).outbox@.len() + 1
                && final(ctx).outbox@.last().dst == src
                && final(ctx).outbox@.last().payload@ == spec_encode_echo(EchoMessage::Pong),
            spec_decode_echo(bytes@) == Some(EchoMessage::Pong) ==> r is Ok
                && *final(ctx) == *old(ctx) && *final(self) == *old(self),
            spec_decode_echo(bytes@) is None ==> r is Err && *final(ctx) == *old(ctx) && *final(self)
                == *old(self),
    {
        match decode_echo(bytes) {
            Some(EchoMessage::Ping) => {
                let pong = encode_echo(EchoMessage::Pong);
                ctx.send_raw(src, ProtoTag(ECHO_TAG), pong);
                if self.pongs_sent < u64::MAX {
                    self.pongs_sent = self.pongs_sent + 1;
                }
                Ok(())
            },
            Some(EchoMessage::Pong) => Ok(()),
            None => Err(
                CodecError { detail: String::from_str("echo: unrecognized message byte") },
            ),
        }
    }

    /// The echo protocol sets no timers.
    fn on_timer(&mut self, ctx: &mut Ctx, timer: TimerId)
        ensures
            *final(ctx) == *old(ctx),
            *final(self) == *old(self),
    {
    }

    /// Faults do not change the echo protocol's behaviour.
    fn on_fault(&mut self, ctx: &mut Ctx, fault: FaultEvent)
        ensures
            *final(ctx) == *old(ctx),
            *final(self) == *old(self),
    {
    }
}

} // verus!
