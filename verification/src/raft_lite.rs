//! A simplified Raft consensus protocol: leader election with heartbeat
//! suppression, built against the protocol SDK. Messages travel in a
//! fixed little-endian wire form with a proved round trip.

use vstd::prelude::*;
use crate::codec::{
    lemma_le32_round, lemma_le64_round, push_u32, push_u64, read_u32, read_u64, spec_from_le32,
    spec_from_le64, spec_le32, spec_le64,
};
use crate::envelope::ProtoTag;
use crate::errors::CodecError;
use crate::ids::{NodeId, TimerId};
use crate::proto::{Ctx, FaultEvent, Protocol};
use crate::time::sim_from_ms;

verus! {

/// The message namespace of the raft-lite protocol.
pub const RAFT_TAG: u16 = 1;

/// A candidate's request for a vote.
#[derive(Debug, Clone, Copy, PartialEq, Eq, Structural)]
pub struct RequestVote {
    pub term: u64,
    pub candidate_id: NodeId,
    pub last_log_index: u64,
    pub last_log_term: u64,
}

/// The answer to a vote request.
#[derive(Debug, Clone, Copy, PartialEq, Eq, Structural)]
pub struct RequestVoteReply {
    pub term: u64,
    pub vote_granted: bool,
}

/// A leader's heartbeat.
#[derive(Debug, Clone, Copy, PartialEq, Eq, Structural)]
pub struct AppendEntries {
    pub term: u64,
    pub leader_id: NodeId,
}

/// The answer to a heartbeat.
#[derive(Debug, Clone, Copy, PartialEq, Eq, Structural)]
pub struct AppendEntriesReply {
    pub term: u64,
    pub success: bool,
}

/// The messages of the raft-lite protocol.
#[derive(Debug, Clone, Copy, PartialEq, Eq, Structural)]
pub enum RaftMessage {
    RequestVote(RequestVote),
    RequestVoteReply(RequestVoteReply),
    AppendEntries(AppendEntries),
    AppendEntriesReply(AppendEntriesReply),
}

/// The wire form of a raft-lite message: a tag byte, then fixed
/// little-endian fields.
pub open spec fn spec_encode_raft(m: RaftMessage) -> Seq<u8> {
    match m {
        RaftMessage::RequestVote(a) => seq![0u8] + spec_le64(a.term) + spec_le32(a.candidate_id)
            + spec_le64(a.last_log_index) + spec_le64(a.last_log_term),
        RaftMessage::RequestVoteReply(a) => seq![1u8] + spec_le64(a.term) + seq![
            if a.vote_granted {
                1u8
            } else {
                0u8
            },
        ],
        RaftMessage::AppendEntries(a) => seq![2u8] + spec_le64(a.term) + spec_le32(a.leader_id),
        RaftMessage::AppendEntriesReply(a) => seq![3u8] + spec_le64(a.term) + seq![
            if a.success {
                1u8
            } else {
                0u8
            },
        ],
    }
}

/// The message a byte string denotes, if any.
pub open spec fn spec_decode_raft(b: Seq<u8>) -> Option<RaftMessage> {
    if b.len() == 29 && b[0] == 0u8 {
        Some(
            RaftMessage::RequestVote(
                RequestVote {
                    term: spec_from_le64(b.subrange(1, 9)),
                    candidate_id: spec_from_le32(b.subrange(9, 13)),
                    last_log_index: spec_from_le64(b.subrange(13, 21)),
                    last_log_term: spec_from_le64(b.subrange(21, 29)),
                },
            ),
        )
    } else if b.len() == 10 && b[0] == 1u8 && (b[9] == 0u8 || b[9] == 1u8) {
        Some(
            RaftMessage::RequestVoteReply(
                RequestVoteReply {
                    term: spec_from_le64(b.subrange(1, 9)),
                    vote_granted: b[9] == 1u8,
                },
            ),
        )
    } else if b.len() == 13 && b[0] == 2u8 {
        Some(
            RaftMessage::AppendEntries(
                AppendEntries {
                    term: spec_from_le64(b.subrange(1, 9)),
                    leader_id: spec_from_le32(b.subrange(9, 13)),
                },
            ),
        )
    } else if b.len() == 10 && b[0] == 3u8 && (b[9] == 0u8 || b[9] == 1u8) {
        Some(
            RaftMessage::AppendEntriesReply(
                AppendEntriesReply {
                    term: spec_from_le64(b.subrange(1, 9)),
                    success: b[9] == 1u8,
                },
            ),
        )
    } else {
        None
    }
}

/// Decoding an encoded raft-lite message yields the message.
pub proof fn lemma_raft_round_trip(m: RaftMessage)
    ensures
        spec_decode_raft(spec_encode_raft(m)) == Some(m),
{
    let b = spec_encode_raft(m);
    match m {
        RaftMessage::RequestVote(a) => {
            assert(b.subrange(1, 9) =~= spec_le64(a.term));
            assert(b.subrange(9, 13) =~= spec_le32(a.candidate_id));
            assert(b.subrange(13, 21) =~= spec_le64(a.last_log_index));
            assert(b.subrange(21, 29) =~= spec_le64(a.last_log_term));
            lemma_le64_round(a.term);
            lemma_le32_round(a.candidate_id);
            lemma_le64_round(a.last_log_index);
            lemma_le64_round(a.last_log_term);
        },
        RaftMessage::RequestVoteReply(a) => {
            assert(b.subrange(1, 9) =~= spec_le64(a.term));
            lemma_le64_round(a.term);
        },
        RaftMessage::AppendEntries(a) => {
            assert(b.subrange(1, 9) =~= spec_le64(a.term));
            assert(b.subrange(9, 13) =~= spec_le32(a.leader_id));
            lemma_le64_round(a.term);
            lemma_le32_round(a.leader_id);
        },
        RaftMessage::AppendEntriesReply(a) => {
            assert(b.subrange(1, 9) =~= spec_le64(a.term));
            lemma_le64_round(a.term);
        },
    }
}

/// Encodes a raft-lite message, matching `spec_encode_raft`.
pub fn encode_raft(m: &RaftMessage) -> (b: Vec<u8>)
    ensures
        b@ == spec_encode_raft(*m),
{
    let mut b: Vec<u8> = Vec::new();
    match m {
        RaftMessage::RequestVote(a) => {
            b.push(0);
            push_u64(&mut b, a.term);
            push_u32(&mut b, a.candidate_id);
            push_u64(&mut b, a.last_log_index);
            push_u64(&mut b, a.last_log_term);
        },
        RaftMessage::RequestVoteReply(a) => {
            b.push(1);
            push_u64(&mut b, a.term);
            b.push(
                if a.vote_granted {
                    1
                } else {
                    0
                },
            );
        },
        RaftMessage::AppendEntries(a) => {
            b.push(2);
            push_u64(&mut b, a.term);
            push_u32(&mut b, a.leader_id);
        },
        RaftMessage::AppendEntriesReply(a) => {
            b.push(3);
            push_u64(&mut b, a.term);
            b.push(
                if a.success {
                    1
                } else {
                    0
                },
            );
        },
    }
    proof {
        assert(b@ =~= spec_encode_raft(*m));
    }
    b
}

/// Decodes a raft-lite message, matching `spec_decode_raft`.
pub fn decode_raft(b: &Vec<u8>) -> (r: Option<RaftMessage>)
    ensures
        r == spec_decode_raft(b@),
{
    let len = b.len();
    if len == 29 && b[0] == 0 {
        Some(
            RaftMessage::RequestVote(
                RequestVote {
                    term: read_u64(b, 1),
                    candidate_id: read_u32(b, 9),
                    last_log_index: read_u64(b, 13),
                    last_log_term: read_u64(b, 21),
                },
            ),
        )
    } else if len == 10 && b[0] == 1 && (b[9] == 0 || b[9] == 1) {
        Some(
            RaftMessage::RequestVoteReply(
                RequestVoteReply { term: read_u64(b, 1), vote_granted: b[9] == 1 },
            ),
        )
    } else if len == 13 && b[0] == 2 {
        Some(
            RaftMessage::AppendEntries(
                AppendEntries { term: read_u64(b, 1), leader_id: read_u32(b, 9) },
            ),
        )
    } else if len == 10 && b[0] == 3 && (b[9] == 0 || b[9] == 1) {
        Some(
            RaftMessage::AppendEntriesReply(
                AppendEntriesReply { term: read_u64(b, 1), success: b[9] == 1 },
            ),
        )
    } else {
        None
    }
}

/// The role a raft node plays.
#[derive(Debug, Clone, Copy, PartialEq, Eq, Structural)]
pub enum Role {
    Follower,
    Candidate,
    Leader,
}

/// One entry of the raft log.
#[derive(Debug, Clone, PartialEq, Eq)]
pub struct LogEntry {
    pub term: u64,
    pub command: Vec<u8>,
}

/// The persistent and volatile state of one raft node.
pub struct State {
    pub id: NodeId,
    pub peers: Vec<NodeId>,
    pub current_term: u64,
    pub voted_for: Option<NodeId>,
    pub log: Vec<LogEntry>,
    pub role: Role,
    pub commit_index: u64,
    pub last_applied: u64,
    /// Per-peer replication cursors, kept by a leader.
    pub next_index: Vec<(NodeId, u64)>,
    pub match_index: Vec<(NodeId, u64)>,
    /// The distinct voters heard this term, kept by a candidate.
    pub votes_received: Vec<NodeId>,
}

impl State {
    pub fn new() -> (s: State)
        ensures
            s.id == 0,
            s.peers@.len() == 0,
            s.current_term == 0,
            s.voted_for is None,
            s.log@.len() == 0,
            s.role == Role::Follower,
            s.commit_index == 0,
            s.last_applied == 0,
            s.next_index@.len() == 0,
            s.match_index@.len() == 0,
            s.votes_received@.len() == 0,
    {
        State {
            id: 0,
            peers: Vec::new(),
            current_term: 0,
            voted_for: None,
            log: Vec::new(),
            role: Role::Follower,
            commit_index: 0,
            last_applied: 0,
            next_index: Vec::new(),
            match_index: Vec::new(),
            votes_received: Vec::new(),
        }
    }

    /// The majority threshold over this node and its peers.
    pub fn quorum(&self) -> (q: usize)
        requires
            self.peers@.len() < usize::MAX,
        ensures
            q == (self.peers@.len() + 1) / 2 + 1,
    {
        (self.peers.len() + 1) / 2 + 1
    }

    /// The index just past the last log entry.
    pub fn last_log_index(&self) -> (i: u64)
        ensures
            i == self.log@.len(),
    {
        self.log.len() as u64
    }

    /// The term of the last log entry, or 0 for an empty log.
    pub fn last_log_term(&self) -> (t: u64)
        ensures
            t == self.spec_last_log_term(),
    {
        if self.log.len() == 0 {
            0
        } else {
            self.log[self.log.len() - 1].term
        }
    }

    pub open spec fn spec_last_log_term(self) -> u64 {
        if self.log@.len() == 0 {
            0u64
        } else {
            self.log@.last().term
        }
    }
}

/// Whether a vote request is granted against a state whose term has
/// already been reconciled with the request's.
pub open spec fn spec_grants_vote(term: u64, voted_for: Option<NodeId>, llt: u64, args: RequestVote) -> bool {
    args.term == term && (voted_for is None || voted_for == Some(args.candidate_id))
        && args.last_log_term >= llt
}

/// The raft-lite protocol instance hosted on one node.
pub struct RaftLite {
    pub state: State,
    pub election_timer: Option<TimerId>,
}

impl Default for RaftLite {
    fn default() -> (r: RaftLite)
        ensures
            r.state.role == Role::Follower,
            r.state.current_term == 0,
            r.election_timer is None,
    {
        RaftLite { state: State::new(), election_timer: None }
    }
}

impl RaftLite {
    pub fn new() -> (r: RaftLite)
        ensures
            r.state.role == Role::Follower,
            r.state.current_term == 0,
            r.election_timer is None,
    {
        RaftLite { state: State::new(), election_timer: None }
    }

    /// Cancels any running election timer and arms a fresh one with a
    /// randomized timeout between 150 and 300 milliseconds, drawn from
    /// the master RNG.
    pub fn reset_election_timer(&mut self, ctx: &mut Ctx)
        requires
            old(ctx).wf(),
        ensures
            final(ctx).wf(),
            Ctx::frame(*old(ctx), *final(ctx)),
            final(ctx).outbox == old(ctx).outbox,
            final(self).state == old(self).state,
            final(self).election_timer is Some,
    {
        let timer = self.election_timer;
        match timer {
            Some(t) => {
                ctx.cancel_timer(t);
            },
            None => {},
        }
        let draw = ctx.rng_u64();
        let timeout_ms: u64 = 150 + draw % 151;
        let t = ctx.set_timer(sim_from_ms(timeout_ms));
        self.election_timer = Some(t);
    }

    /// Falls back to follower in a newer term: the vote is forgotten and
    /// the election timer restarts.
    pub fn become_follower(&mut self, ctx: &mut Ctx, term: u64)
        requires
            old(ctx).wf(),
        ensures
            final(ctx).wf(),
            Ctx::frame(*old(ctx), *final(ctx)),
            final(ctx).outbox == old(ctx).outbox,
            final(self).state.current_term == term,
            final(self).state.role == Role::Follower,
            final(self).state.voted_for is None,
            final(self).state.id == old(self).state.id,
            final(self).state.peers == old(self).state.peers,
            final(self).state.log == old(self).state.log,
            final(self).state.votes_received == old(self).state.votes_received,
    {
        self.state.current_term = term;
        self.state.role = Role::Follower;
        self.state.voted_for = None;
        self.reset_election_timer(ctx);
    }
}

/// An election timeout: a non-leader becomes a candidate in the next
/// term, votes for itself, restarts its timer, and asks every peer for a
/// vote.
pub fn handle_election_timeout(raft: &mut RaftLite, ctx: &mut Ctx)
    requires
        old(ctx).wf(),
    ensures
        final(ctx).wf(),
        Ctx::frame(*old(ctx), *final(ctx)),
        old(raft).state.role == Role::Leader ==> *final(raft) == *old(raft) && *final(ctx) == *old(
            ctx,
        ),
        old(raft).state.role != Role::Leader ==> {
            &&& final(raft).state.role == Role::Candidate
            &&& final(raft).state.current_term == crate::telemetry::spec_sat_inc(
                old(raft).state.current_term,
            )
            &&& final(raft).state.voted_for == Some(old(raft).state.id)
            &&& final(raft).state.votes_received@ == seq![old(raft).state.id]
            &&& final(raft).election_timer is Some
            &&& forall|i: int|
                old(ctx).outbox@.len() <= i < final(ctx).outbox@.len() ==> (
                #[trigger] final(ctx).outbox@[i]).payload@ == spec_encode_raft(
                    RaftMessage::RequestVote(
                        RequestVote {
                            term: final(raft).state.current_term,
                            candidate_id: old(raft).state.id,
                            last_log_index: old(raft).state.log@.len() as u64,
                            last_log_term: old(raft).state.spec_last_log_term(),
                        },
                    ),
                )
            &&& forall|p: NodeId|
                old(ctx).peers@.contains(p) && p != old(ctx).node_id ==> exists|i: int|
                    old(ctx).outbox@.len() <= i < final(ctx).outbox@.len() && (
                    #[trigger] final(ctx).outbox@[i]).dst == p
        },
{
    if matches!(raft.state.role, Role::Leader) {
        return ;
    }
    raft.state.role = Role::Candidate;
    raft.state.current_term = if raft.state.current_term < u64::MAX {
        raft.state.current_term + 1
    } else {
        raft.state.current_term
    };
    raft.state.voted_for = Some(raft.state.id);
    raft.state.votes_received = Vec::new();
    raft.state.votes_received.push(raft.state.id);
    proof {
        assert(raft.state.votes_received@ =~= seq![old(raft).state.id]);
    }
    raft.reset_election_timer(ctx);
    let args = RequestVote {
        term: raft.state.current_term,
        candidate_id: raft.state.id,
        last_log_index: raft.state.last_log_index(),
        last_log_term: raft.state.last_log_term(),
    };
    let bytes = encode_raft(&RaftMessage::RequestVote(args));
    ctx.broadcast_raw(ProtoTag(RAFT_TAG), &bytes);
}

/// A vote request: the term is reconciled first, then the vote is
/// granted exactly when the candidate's term matches, no conflicting
/// vote was cast, and the candidate's log is at least as recent. One
/// reply always goes back to the requester.
pub fn handle_request_vote(raft: &mut RaftLite, ctx: &mut Ctx, src: NodeId, args: RequestVote)
    requires
        old(ctx).wf(),
    ensures
        final(ctx).wf(),
        Ctx::frame(*old(ctx), *final(ctx)),
        final(raft).state.current_term == if args.term > old(raft).state.current_term {
            args.term
        } else {
            old(raft).state.current_term
        },
        final(ctx).outbox@.len() == old(ctx).outbox@.len() + 1,
        ({
            let granted = spec_grants_vote(
                final(raft).state.current_term,
                if args.term > old(raft).state.current_term {
                    None
                } else {
                    old(raft).state.voted_for
                },
                old(raft).state.spec_last_log_term(),
                args,
            );
            let reply = final(ctx).outbox@.last();
            &&& reply.dst == src
            &&& reply.payload@ == spec_encode_raft(
                RaftMessage::RequestVoteReply(
                    RequestVoteReply { term: final(raft).state.current_term, vote_granted: granted },
                ),
            )
            &&& granted ==> final(raft).state.voted_for == Some(args.candidate_id)
        }),
{
    if args.term > raft.state.current_term {
        raft.become_follower(ctx, args.term);
    }
    let ghost reconciled_voted: Option<NodeId> = if args.term > old(raft).state.current_term {
        None
    } else {
        old(raft).state.voted_for
    };
    let llt = raft.state.last_log_term();
    proof {
        assert(raft.state.log == old(raft).state.log);
        assert(llt == old(raft).state.spec_last_log_term());
    }
    let mut vote_granted = false;
    if args.term == raft.state.current_term {
        let no_conflict = match raft.state.voted_for {
            None => true,
            Some(v) => v == args.candidate_id,
        };
        if no_conflict && args.last_log_term >= llt {
            vote_granted = true;
            raft.state.voted_for = Some(args.candidate_id);
        }
    }
    let reply = RequestVoteReply { term: raft.state.current_term, vote_granted };
    let bytes = encode_raft(&RaftMessage::RequestVoteReply(reply));
    ctx.send_raw(src, ProtoTag(RAFT_TAG), bytes);
}

/// A vote reply: a newer term demotes the candidate at once; a grant in
/// the current term is recorded (each voter once), and reaching quorum
/// makes this node the leader, which announces itself to every peer.
pub fn handle_request_vote_reply(
    raft: &mut RaftLite,
    ctx: &mut Ctx,
    src: NodeId,
    reply: RequestVoteReply,
)
    requires
        old(ctx).wf(),
        old(raft).state.peers@.len() < 0xffff_ffff,
    ensures
        final(ctx).wf(),
        Ctx::frame(*old(ctx), *final(ctx)),
        reply.term > old(raft).state.current_term ==> final(raft).state.role == Role::Follower
            && final(raft).state.current_term == reply.term,
        reply.term <= old(raft).state.current_term && !(old(raft).state.role == Role::Candidate
            && reply.term == old(raft).state.current_term && reply.vote_granted) ==> *final(raft)
            == *old(raft) && *final(ctx) == *old(ctx),
        old(raft).state.role == Role::Candidate && reply.term == old(raft).state.current_term
            && reply.vote_granted ==> ({
            let votes = old(raft).state.votes_received@.len() + (if voter_in(
                old(raft).state.votes_received@,
                src,
            ) {
                0int
            } else {
                1int
            });
            let quorum = (old(raft).state.peers@.len() + 1) / 2 + 1;
            &&& (votes >= quorum ==> final(raft).state.role == Role::Leader
                && final(raft).election_timer is None && final(raft).state.next_index@.len()
                == old(raft).state.peers@.len() && final(raft).state.match_index@.len() == old(raft).state.peers@.len()
                && (forall|p: NodeId|
                old(ctx).peers@.contains(p) && p != old(ctx).node_id ==> exists|i: int|
                    old(ctx).outbox@.len() <= i < final(ctx).outbox@.len() && (
                    #[trigger] final(ctx).outbox@[i]).dst == p))
            &&& (votes < quorum ==> final(raft).state.role == Role::Candidate
                && final(raft).state.current_term == old(raft).state.current_term)
        }),
{
    if reply.term > raft.state.current_term {
        raft.become_follower(ctx, reply.term);
        return ;
    }
    if matches!(raft.state.role, Role::Candidate) && reply.term == raft.state.current_term
        && reply.vote_granted {
        push_unique(&mut raft.state.votes_received, src);
        if raft.state.votes_received.len() >= raft.state.quorum() {
            become_leader(raft, ctx);
        }
    }
}

/// A heartbeat: the term is reconciled, an equal term counts as success
/// and quiets the election timer, and a reply always goes back to the
/// leader.
pub fn handle_append_entries(raft: &mut RaftLite, ctx: &mut Ctx, src: NodeId, args: AppendEntries)
    requires
        old(ctx).wf(),
    ensures
        final(ctx).wf(),
        Ctx::frame(*old(ctx), *final(ctx)),
        final(raft).state.current_term == if args.term > old(raft).state.current_term {
            args.term
        } else {
            old(raft).state.current_term
        },
        final(ctx).outbox@.len() == old(ctx).outbox@.len() + 1,
        ({
            let reply = final(ctx).outbox@.last();
            &&& reply.dst == src
            &&& reply.payload@ == spec_encode_raft(
                RaftMessage::AppendEntriesReply(
                    AppendEntriesReply {
                        term: final(raft).state.current_term,
                        success: args.term == final(raft).state.current_term,
                    },
                ),
            )
        }),
{
    if args.term > raft.state.current_term {
        raft.become_follower(ctx, args.term);
    }
    let success = args.term == raft.state.current_term;
    if success {
        raft.reset_election_timer(ctx);
    }
    let reply = AppendEntriesReply { term: raft.state.current_term, success };
    let bytes = encode_raft(&RaftMessage::AppendEntriesReply(reply));
    ctx.send_raw(src, ProtoTag(RAFT_TAG), bytes);
}

/// A heartbeat reply: replication cursors would move here; the
/// simplified protocol records nothing.
pub fn handle_append_entries_reply(
    raft: &mut RaftLite,
    ctx: &mut Ctx,
    src: NodeId,
    reply: AppendEntriesReply,
)
    requires
        old(ctx).wf(),
    ensures
        final(ctx).wf(),
        Ctx::frame(*old(ctx), *final(ctx)),
        *final(raft) == *old(raft),
        *final(ctx) == *old(ctx),
{
}

/// Quorum reached: the candidate becomes leader, stops its election
/// timer, resets the replication cursors, and announces itself with a
/// heartbeat to every peer.
fn become_leader(raft: &mut RaftLite, ctx: &mut Ctx)
    requires
        old(ctx).wf(),
    ensures
        final(ctx).wf(),
        Ctx::frame(*old(ctx), *final(ctx)),
        final(raft).state.role == Role::Leader,
        final(raft).state.current_term == old(raft).state.current_term,
        final(raft).election_timer is None,
        final(raft).state.next_index@.len() == old(raft).state.peers@.len(),
        final(raft).state.match_index@.len() == old(raft).state.peers@.len(),
        forall|i: int|
            0 <= i < old(raft).state.peers@.len() ==> (#[trigger] final(raft).state.next_index@[i])
                == (old(raft).state.peers@[i], crate::telemetry::spec_sat_inc(
                old(raft).state.log@.len() as u64,
            )) && final(raft).state.match_index@[i] == (old(raft).state.peers@[i], 0u64),
        forall|i: int|
            old(ctx).outbox@.len() <= i < final(ctx).outbox@.len() ==> (
            #[trigger] final(ctx).outbox@[i]).payload@ == spec_encode_raft(
                RaftMessage::AppendEntries(
                    AppendEntries {
                        term: old(raft).state.current_term,
                        leader_id: old(raft).state.id,
                    },
                ),
            ),
        forall|p: NodeId|
            old(ctx).peers@.contains(p) && p != old(ctx).node_id ==> exists|i: int|
                old(ctx).outbox@.len() <= i < final(ctx).outbox@.len() && (
                #[trigger] final(ctx).outbox@[i]).dst == p,
{
    raft.state.role = Role::Leader;
    let timer = raft.election_timer;
    match timer {
        Some(t) => {
            ctx.cancel_timer(t);
            raft.election_timer = None;
        },
        None => {},
    }
    let lli = raft.state.last_log_index();
    let next_cursor: u64 = if lli < u64::MAX {
        lli + 1
    } else {
        lli
    };
    let mut next_index: Vec<(NodeId, u64)> = Vec::new();
    let mut match_index: Vec<(NodeId, u64)> = Vec::new();
    let n = raft.state.peers.len();
    let mut i: usize = 0;
    while i < n
        invariant
            n == raft.state.peers@.len(),
            raft.state.peers@ == old(raft).state.peers@,
            next_cursor == crate::telemetry::spec_sat_inc(old(raft).state.log@.len() as u64),
            0 <= i <= n,
            next_index@.len() == i,
            match_index@.len() == i,
            forall|m: int|
                0 <= m < i ==> (#[trigger] next_index@[m]) == (old(raft).state.peers@[m],
                next_cursor) && match_index@[m] == (old(raft).state.peers@[m], 0u64),
        decreases n - i,
    {
        let p = raft.state.peers[i];
        let ghost pre_next = next_index@;
        let ghost pre_match = match_index@;
        next_index.push((p, next_cursor));
        match_index.push((p, 0));
        proof {
            assert forall|m: int|
                0 <= m < i + 1 implies (#[trigger] next_index@[m]) == (old(raft).state.peers@[m],
            next_cursor) && match_index@[m] == (old(raft).state.peers@[m], 0u64) by {
                if m < i {
                    assert(next_index@[m] == pre_next[m]);
                    assert(match_index@[m] == pre_match[m]);
                } else {
                    assert(next_index@[m] == (p, next_cursor));
                    assert(match_index@[m] == (p, 0u64));
                }
            }
        }
        i = i + 1;
    }
    raft.state.next_index = next_index;
    raft.state.match_index = match_index;
    let args = AppendEntries { term: raft.state.current_term, leader_id: raft.state.id };
    let bytes = encode_raft(&RaftMessage::AppendEntries(args));
    ctx.broadcast_raw(ProtoTag(RAFT_TAG), &bytes);
}

/// Whether a list of voters holds the given id.
pub open spec fn voter_in(s: Seq<NodeId>, x: NodeId) -> bool {
    exists|i: int| 0 <= i < s.len() && s[i] == x
}

/// Appends a voter unless it is already recorded, so that no voter is
/// ever counted twice towards a quorum.
fn push_unique(v: &mut Vec<NodeId>, x: NodeId)
    ensures
        voter_in(final(v)@, x),
        forall|y: NodeId| y != x ==> voter_in(final(v)@, y) == voter_in(old(v)@, y),
        final(v)@.len() == old(v)@.len() + (if voter_in(old(v)@, x) {
            0int
        } else {
            1int
        }),
        (forall|i: int, j: int| 0 <= i < j < old(v)@.len() ==> old(v)@[i] != old(v)@[j])
            ==> (forall|i: int, j: int|
            0 <= i < j < final(v)@.len() ==> final(v)@[i] != final(v)@[j]),
{
    let n = v.len();
    let mut i: usize = 0;
    while i < n
        invariant
            n == v@.len(),
            v@ == old(v)@,
            0 <= i <= n,
            forall|m: int| 0 <= m < i ==> v@[m] != x,
        decreases n - i,
    {
        if v[i] == x {
            return ;
        }
        i = i + 1;
    }
    let ghost before = v@;
    v.push(x);
    proof {
        assert(v@[before.len() as int] == x);
        assert forall|y: NodeId| y != x implies voter_in(v@, y) == voter_in(before, y) by {
            if voter_in(v@, y) {
                let m = choose|m: int| 0 <= m < v@.len() && v@[m] == y;
                assert(before[m] == y);
            }
            if voter_in(before, y) {
                let m = choose|m: int| 0 <= m < before.len() && before[m] == y;
                assert(v@[m] == y);
            }
        }
    }
}

impl Protocol for RaftLite {
    fn name(&self) -> &'static str {
        "raft_lite"
    }

    fn proto_tag(&self) -> (t: ProtoTag)
        ensures
            t == ProtoTag(RAFT_TAG),
    {
        ProtoTag(RAFT_TAG)
    }

    /// Starts as a follower among the peers the node was given, with a
    /// running election timer.
    fn init(&mut self, ctx: &mut Ctx)
        ensures
            final(self).state.role == Role::Follower,
            final(self).election_timer is Some,
    {
        self.state.id = ctx.node_id();
        self.state.peers = crate::node::copy_node_ids(&ctx.peers);
        self.state.role = Role::Follower;
        self.reset_election_timer(ctx);
        ctx.log_kv(String::from_str("role"), String::from_str("follower"));
    }

    /// Dispatches a decoded message; undecodable bytes are reported and
    /// consumed.
    fn on_message(&mut self, ctx: &mut Ctx, src: NodeId, bytes: &Vec<u8>) -> (r: Result<
        (),
        CodecError,
    >)
        ensures
            spec_decode_raft(bytes@) is None ==> r is Err && *final(self) == *old(self)
                && *final(ctx) == *old(ctx),
            spec_decode_raft(bytes@) is Some && old(self).state.peers@.len() < 0xffff_ffff ==> r
                is Ok,
    {
        if self.state.peers.len() >= 0xffff_ffff {
            return Err(
                CodecError { detail: String::from_str("raft: peer list out of range") },
            );
        }
        match decode_raft(bytes) {
            Some(RaftMessage::RequestVote(args)) => {
                handle_request_vote(self, ctx, src, args);
                Ok(())
            },
            Some(RaftMessage::RequestVoteReply(reply)) => {
                handle_request_vote_reply(self, ctx, src, reply);
                Ok(())
            },
            Some(RaftMessage::AppendEntries(args)) => {
                handle_append_entries(self, ctx, src, args);
                Ok(())
            },
            Some(RaftMessage::AppendEntriesReply(reply)) => {
                handle_append_entries_reply(self, ctx, src, reply);
                Ok(())
            },
            None => Err(
                CodecError { detail: String::from_str("raft: unrecognized message bytes") },
            ),
        }
    }

    /// Only the election timer matters; any other timer is ignored.
    fn on_timer(&mut self, ctx: &mut Ctx, timer: TimerId) {
        let is_election = match self.election_timer {
            Some(t) => t == timer,
            None => false,
        };
        if is_election {
            handle_election_timeout(self, ctx);
        }
    }

    /// Raft is designed to ride out faults; nothing special happens.
    fn on_fault(&mut self, ctx: &mut Ctx, fault: FaultEvent)
        ensures
            *final(self) == *old(self),
            *final(ctx) == *old(ctx),
    {
    }
}

} // verus!
