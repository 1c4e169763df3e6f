//! The two half-connection state machines: what an inbound segment does to
//! its connection, and the reply built in its place.
use vstd::prelude::*;
use crate::cdata::{CData, cdata_decodable, decodes_to};
use crate::connection::{
    active_close_states, active_close_closes,
    Connection, add32, final_ack_of, handshake_ack_of, isn, passive_fin_ack_of, fin_reply_of,
    syn_ack_of,
};
use crate::packet::{Packet, PacketView};
use crate::tcp_common::{ReleaseCause, TcpCounter, TcpState, TcpStatistics};

verus! {

broadcast use crate::packet::lemma_checksums_keep;

/// The frame is dropped.
pub const GROUP_DROP: usize = 0;

/// The frame goes out to the NIC.
pub const GROUP_NIC: usize = 1;

/// The frame goes to the kernel interface.
pub const GROUP_KNI: usize = 2;

/// What a segment asks of the pipeline once its connection is updated.
#[derive(Clone, Copy, Debug, PartialEq, Eq, Structural)]
pub struct SegmentOutcome {
    /// Where the frame goes: `GROUP_DROP`, `GROUP_NIC` or `GROUP_KNI`.
    pub group: usize,
    /// The connection has ended and is to be released.
    pub release: bool,
    /// The connection has just become established and is ready for data.
    pub ready: bool,
    /// The connection's establishment timeout is to be scheduled.
    pub schedule_timeout: bool,
}

/// The segment's sequence number is not the one expected: the peer's data
/// was lost or repeated. Nothing is known to expect before the handshake.
pub open spec fn seq_drift(c: Connection, v: PacketView, first: TcpState) -> bool {
    c.state() != first && v.tcp.seq != c.ackn_nxt
}

/// The client-side transition: what `c0`, frame `p0` and counters `k0`
/// become, and the outcome.
pub open spec fn client_step(c0: Connection, p0: PacketView, k0: TcpCounter, c1: Connection, p1: PacketView, k1: TcpCounter, r: SegmentOutcome) -> bool {
    &&& c1.wf()
    &&& p1.wf()
    &&& k1.wf()
    &&& r.group <= GROUP_KNI
    &&& k1.spec_get(TcpStatistics::SentSyn) == k0.spec_get(TcpStatistics::SentSyn)
    &&& c1.same_identity(&c0)
    &&& c1.con_rec.states@.len() >= c0.con_rec.states@.len()
    &&& c1.con_rec.states@.subrange(0, c0.con_rec.states@.len() as int) == c0.con_rec.states@
    &&& seq_drift(c0, p0, TcpState::SynSent) ==> {
                &&& c1 == c0
                &&& p1 == p0
                &&& k1 == k0
                &&& r == SegmentOutcome { group: GROUP_DROP, release: false, ready: false, schedule_timeout: false }
    }
    &&& !seq_drift(c0, p0, TcpState::SynSent) && p0.tcp.flags.syn && p0.tcp.flags.ack ==> {
                &&& (c0.state() == TcpState::SynSent || c0.state() == TcpState::Established) ==> {
                    &&& r == SegmentOutcome {
                        group: GROUP_NIC,
                        release: false,
                        ready: c0.state() == TcpState::SynSent,
                        schedule_timeout: false,
                    }
                    &&& p1 == handshake_ack_of(p0, c0.seqn_nxt).with_checksums()
                    &&& c1.seqn_nxt == c0.seqn_nxt
                    &&& c1.ackn_nxt == add32(p0.tcp.seq, p0.payload_len() + 1)
                    &&& TcpCounter::bumped_twice(k0, k1, TcpStatistics::RecvSynAck, TcpStatistics::SentSynAck2)
                    &&& c1.con_rec.states@ == (if c0.state() == TcpState::SynSent {
                        c0.con_rec.states@.push(TcpState::Established)
                    } else {
                        c0.con_rec.states@
                    })
                }
                &&& !(c0.state() == TcpState::SynSent || c0.state() == TcpState::Established) ==> {
                    &&& r == SegmentOutcome { group: GROUP_DROP, release: false, ready: false, schedule_timeout: false }
                    &&& c1 == c0
                    &&& p1 == p0
                    &&& k1 == k0
                }
    }
    &&& !seq_drift(c0, p0, TcpState::SynSent) && !(p0.tcp.flags.syn && p0.tcp.flags.ack)
                && p0.tcp.flags.fin ==> {
                &&& r == SegmentOutcome { group: GROUP_NIC, release: false, ready: false, schedule_timeout: false }
                &&& c0.state().rank_spec() >= TcpState::FinWait1.rank_spec() ==> p1 == final_ack_of(
                    p0,
                    c0.seqn_nxt,
                ).with_checksums() && c1.seqn_nxt == c0.seqn_nxt
                    && c1.con_rec.states@ == active_close_states(c0, p0, c0.state())
                    && c1.con_rec.release_cause == c0.con_rec.release_cause
                    && TcpCounter::bumped_twice(k0, k1, TcpStatistics::RecvFinAck, TcpStatistics::SentFinAck2)
                &&& c0.state().rank_spec() < TcpState::FinWait1.rank_spec() ==> p1 == passive_fin_ack_of(
                    p0,
                    c0.seqn_nxt,
                ).with_checksums() && c1.seqn_nxt == add32(c0.seqn_nxt, 1) && c1.con_rec.states@
                    == c0.con_rec.states@.push(TcpState::LastAck) && c1.con_rec.release_cause == Some(
                    ReleaseCause::PassiveClose,
                ) && TcpCounter::bumped_twice(k0, k1, TcpStatistics::RecvFin, TcpStatistics::SentFinAck)
    }
    &&& !seq_drift(c0, p0, TcpState::SynSent) && !(p0.tcp.flags.syn && p0.tcp.flags.ack)
                && !p0.tcp.flags.fin && p0.tcp.flags.rst ==> {
                &&& r == SegmentOutcome { group: GROUP_DROP, release: true, ready: false, schedule_timeout: false }
                &&& c1.con_rec.states@ == c0.con_rec.states@.push(TcpState::Closed)
                &&& c1.con_rec.release_cause == Some(ReleaseCause::PassiveRst)
                &&& c1.seqn_nxt == c0.seqn_nxt
                &&& c1.ackn_nxt == c0.ackn_nxt
                &&& p1 == p0
                &&& TcpCounter::bumped(k0, k1, TcpStatistics::RecvRst)
    }
    &&& !seq_drift(c0, p0, TcpState::SynSent) && !p0.tcp.flags.syn && !p0.tcp.flags.fin
                && !p0.tcp.flags.rst && p0.tcp.flags.ack ==> {
                &&& c0.state() == TcpState::LastAck && p0.tcp.ack == c0.seqn_nxt ==> {
                    &&& r == SegmentOutcome { group: GROUP_DROP, release: true, ready: false, schedule_timeout: false }
                    &&& c1.con_rec.states@ == c0.con_rec.states@.push(TcpState::Closed)
                    &&& c1.con_rec.release_cause == Some(ReleaseCause::PassiveClose)
                    &&& TcpCounter::bumped(k0, k1, TcpStatistics::RecvFinAck2)
                }
                &&& !(c0.state() == TcpState::LastAck && p0.tcp.ack == c0.seqn_nxt) ==> {
                    &&& r == SegmentOutcome { group: GROUP_DROP, release: false, ready: false, schedule_timeout: false }
                    &&& c1 == c0
                    &&& k1 == k0
                }
                &&& p1 == p0
    }
    &&& !seq_drift(c0, p0, TcpState::SynSent) && !p0.tcp.flags.fin && !p0.tcp.flags.rst
                && !p0.tcp.flags.ack ==> {
                &&& r == SegmentOutcome { group: GROUP_KNI, release: false, ready: false, schedule_timeout: false }
                &&& c1 == c0
                &&& p1 == p0
                &&& TcpCounter::bumped(k0, k1, TcpStatistics::Unexpected)
    }
}

/// The server-side transition on the flags of a segment.
pub open spec fn server_flags_step(c0: Connection, p0: PacketView, k0: TcpCounter, now: u64, rxq: u16, c1: Connection, p1: PacketView, k1: TcpCounter, r: SegmentOutcome) -> bool {
    &&& c1.wf()
    &&& p1.wf()
    &&& k1.wf()
    &&& r.group <= GROUP_NIC
    &&& !r.ready
    &&& c1.port == c0.port
    &&& c1.role == c0.role
    &&& c1.con_rec.payload_packets == c0.con_rec.payload_packets
    &&& c1.con_rec.uuid == c0.con_rec.uuid
    &&& c1.con_rec.client_port == c0.con_rec.client_port
    &&& c1.con_rec.states@.len() >= c0.con_rec.states@.len()
    &&& c1.con_rec.states@.subrange(0, c0.con_rec.states@.len() as int) == c0.con_rec.states@
    &&& seq_drift(c0, p0, TcpState::Listen) ==> {
                &&& c1 == c0
                &&& p1 == p0
                &&& k1 == k0
                &&& r == SegmentOutcome { group: GROUP_DROP, release: false, ready: false, schedule_timeout: false }
    }
    &&& !seq_drift(c0, p0, TcpState::Listen) && p0.tcp.flags.syn ==> {
                &&& c0.state() == TcpState::Listen ==> {
                    &&& r == SegmentOutcome { group: GROUP_NIC, release: false, ready: false, schedule_timeout: true }
                    &&& c1.con_rec.states@ == c0.con_rec.states@.push(TcpState::SynReceived)
                    &&& p1 == syn_ack_of(p0, isn(now)).with_checksums()
                    &&& c1.seqn_nxt == add32(isn(now), 1)
                    &&& c1.ackn_nxt == add32(p0.tcp.seq, p0.without_options().payload_len() + 1)
                    &&& c1.dut_ip == p0.ip.src
                    &&& c1.dut_port == p0.tcp.src_port
                    &&& c1.con_rec.server_index == rxq
                    &&& TcpCounter::bumped(k0, k1, TcpStatistics::SentSynAck)
                }
                &&& c0.state() != TcpState::Listen ==> {
                    &&& r == SegmentOutcome { group: GROUP_DROP, release: false, ready: false, schedule_timeout: false }
                    &&& c1 == c0
                    &&& p1 == p0
                    &&& k1 == k0
                }
    }
    &&& !seq_drift(c0, p0, TcpState::Listen) && !p0.tcp.flags.syn && p0.tcp.flags.fin ==> {
                &&& r.group == GROUP_NIC
                &&& !r.schedule_timeout
                &&& c0.state().rank_spec() >= TcpState::FinWait1.rank_spec() ==> p1 == final_ack_of(
                    p0,
                    c0.seqn_nxt,
                ).with_checksums() && c1.seqn_nxt == c0.seqn_nxt && r.release == active_close_closes(c0, p0, c0.state())
                    && c1.con_rec.states@ == active_close_states(c0, p0, c0.state())
                    && c1.con_rec.release_cause == c0.con_rec.release_cause
                    && TcpCounter::bumped_twice(k0, k1, TcpStatistics::RecvFinAck, TcpStatistics::SentFinAck2)
                &&& c0.state().rank_spec() < TcpState::FinWait1.rank_spec() ==> p1 == passive_fin_ack_of(
                    p0,
                    c0.seqn_nxt,
                ).with_checksums() && c1.seqn_nxt == add32(c0.seqn_nxt, 1) && c1.con_rec.states@
                    == c0.con_rec.states@.push(TcpState::LastAck) && !r.release
                    && c1.con_rec.release_cause == Some(ReleaseCause::PassiveClose)
                    && TcpCounter::bumped_twice(k0, k1, TcpStatistics::RecvFin, TcpStatistics::SentFinAck)
    }
    &&& !seq_drift(c0, p0, TcpState::Listen) && !p0.tcp.flags.syn && !p0.tcp.flags.fin
                && p0.tcp.flags.rst ==> {
                &&& r == SegmentOutcome { group: GROUP_DROP, release: true, ready: false, schedule_timeout: false }
                &&& c1.con_rec.states@ == c0.con_rec.states@.push(TcpState::Closed)
                &&& c1.con_rec.release_cause == Some(ReleaseCause::PassiveRst)
                &&& c1.seqn_nxt == c0.seqn_nxt
                &&& c1.ackn_nxt == c0.ackn_nxt
                &&& p1 == p0
                &&& TcpCounter::bumped(k0, k1, TcpStatistics::RecvRst)
    }
    &&& !seq_drift(c0, p0, TcpState::Listen) && !p0.tcp.flags.syn && !p0.tcp.flags.fin
                && !p0.tcp.flags.rst ==> {
                &&& p1 == p0
                &&& c1.seqn_nxt == c0.seqn_nxt
                &&& c1.ackn_nxt == c0.ackn_nxt
                &&& r.group == GROUP_DROP
                &&& !r.schedule_timeout
                &&& r.release == (p0.tcp.flags.ack && p0.tcp.ack == c0.seqn_nxt && (c0.state()
                    == TcpState::LastAck || c0.state() == TcpState::Closing))
                &&& c1.con_rec.states@ == (if p0.tcp.flags.ack && p0.tcp.ack == c0.seqn_nxt {
                    match c0.state() {
                        TcpState::SynReceived => c0.con_rec.states@.push(TcpState::Established),
                        TcpState::LastAck => c0.con_rec.states@.push(TcpState::Closed),
                        TcpState::FinWait1 => c0.con_rec.states@.push(TcpState::FinWait2),
                        TcpState::Closing => c0.con_rec.states@.push(TcpState::Closed),
                        _ => c0.con_rec.states@,
                    }
                } else {
                    c0.con_rec.states@
                })
                &&& (p0.tcp.flags.ack && p0.tcp.ack == c0.seqn_nxt && c0.state() == TcpState::SynReceived)
                    ==> TcpCounter::bumped(k0, k1, TcpStatistics::RecvSynAck2)
                &&& (p0.tcp.flags.ack && p0.tcp.ack == c0.seqn_nxt && c0.state() == TcpState::LastAck)
                    ==> TcpCounter::bumped(k0, k1, TcpStatistics::RecvFinAck2)
                    && c1.con_rec.release_cause == Some(ReleaseCause::PassiveClose)
                &&& !(p0.tcp.flags.ack && p0.tcp.ack == c0.seqn_nxt && (c0.state() == TcpState::SynReceived
                    || c0.state() == TcpState::LastAck)) ==> k1 == k0
    }
}

/// The server-side transition on the payload of a segment.
pub open spec fn server_payload_step(c0: Connection, p0: PacketView, k0: TcpCounter, old_state: TcpState, flags_outcome: SegmentOutcome, c1: Connection, p1: PacketView, k1: TcpCounter, r: SegmentOutcome) -> bool {
    &&& c1.wf()
    &&& p1.wf()
    &&& k1.wf()
    &&& r.group <= GROUP_NIC
    &&& r.release == flags_outcome.release
    &&& r.ready == flags_outcome.ready
    &&& r.schedule_timeout == flags_outcome.schedule_timeout
    &&& c1.port == c0.port
    &&& c1.role == c0.role
    &&& c1.con_rec.states@.len() >= c0.con_rec.states@.len()
    &&& c1.con_rec.states@.subrange(0, c0.con_rec.states@.len() as int) == c0.con_rec.states@
    &&& !(old_state.rank_spec() >= TcpState::Established.rank_spec() && p0.payload_len() > 0) ==> {
                &&& c1 == c0
                &&& p1 == p0
                &&& k1 == k0
                &&& r == flags_outcome
    }
    &&& old_state.rank_spec() >= TcpState::Established.rank_spec() && p0.payload_len() > 0
                && c0.con_rec.payload_packets == 0 ==> {
                &&& (old_state == TcpState::Established ==> r == SegmentOutcome { group: GROUP_NIC, ..flags_outcome })
                &&& (old_state != TcpState::Established ==> r == flags_outcome)
                &&& c1.con_rec.payload_packets == 1
                &&& cdata_decodable(p0.payload()) ==> c1.con_rec.uuid.is_some() == decodes_uuid_some(p0.payload())
                    && (exists|d: CData| decodes_to(p0.payload(), d) && c1.con_rec.client_port == d.client_port
                    && c1.con_rec.uuid == d.uuid)
                &&& !cdata_decodable(p0.payload()) ==> c1.con_rec.uuid == c0.con_rec.uuid
                    && c1.con_rec.client_port == c0.con_rec.client_port
                &&& old_state == TcpState::Established ==> {
                    &&& p1 == fin_reply_of(p0, c0.seqn_nxt).with_checksums()
                    &&& c1.seqn_nxt == add32(c0.seqn_nxt, 1)
                    &&& c1.con_rec.states@ == c0.con_rec.states@.push(TcpState::FinWait1)
                    &&& c1.con_rec.release_cause == Some(ReleaseCause::ActiveClose)
                    &&& TcpCounter::bumped_twice(k0, k1, TcpStatistics::SentFin, TcpStatistics::Payload)
                }
                &&& old_state != TcpState::Established ==> p1 == p0 && c1.con_rec.states@
                    == c0.con_rec.states@ && TcpCounter::bumped(k0, k1, TcpStatistics::Payload)
    }
    &&& old_state.rank_spec() >= TcpState::Established.rank_spec() && p0.payload_len() > 0
                && c0.con_rec.payload_packets != 0 ==> {
                &&& c1 == (Connection { ackn_nxt: add32(p0.tcp.seq, p0.payload_len()), ..c0 })
                &&& p1 == p0
                &&& k1 == k0
                &&& r == flags_outcome
    }
}

/// Client side: an inbound segment for a connection of ours.
pub fn client_segment(c: &mut Connection, p: &mut Packet, counter: &mut TcpCounter) -> (r: SegmentOutcome)
    requires
        old(c).wf(),
        old(p)@.wf(),
        old(counter).wf(),
    ensures
        client_step(*old(c), old(p)@, *old(counter), *final(c), final(p)@, *final(counter), r),
{
    let old_state = c.last_state();
    let mut r = SegmentOutcome { group: GROUP_DROP, release: false, ready: false, schedule_timeout: false };
    if old_state != TcpState::SynSent && p.tcp.seq != c.ackn_nxt {
        // out of sequence: a lost or repeated segment; the state stays
    } else if p.tcp.flags.ack && p.tcp.flags.syn {
        if old_state == TcpState::SynSent || old_state == TcpState::Established {
            counter.inc(TcpStatistics::RecvSynAck);
            r.group = GROUP_NIC;
            if old_state == TcpState::SynSent {
                c.push_state(TcpState::Established);
                r.ready = true;
            }
            c.synack_received(p);
            counter.inc(TcpStatistics::SentSynAck2);

        }
    } else if p.tcp.flags.fin {
        if old_state.at_least(TcpState::FinWait1) {
            c.active_close(p, counter, old_state);
        } else {
            c.passive_close(p, counter);
        }
        r.group = GROUP_NIC;
    } else if p.tcp.flags.rst {
        counter.inc(TcpStatistics::RecvRst);
        c.push_state(TcpState::Closed);
        c.released(ReleaseCause::PassiveRst);
        r.release = true;
    } else if old_state == TcpState::LastAck && p.tcp.flags.ack && p.tcp.ack == c.seqn_nxt {
        counter.inc(TcpStatistics::RecvFinAck2);
        c.push_state(TcpState::Closed);
        c.released(ReleaseCause::PassiveClose);
        r.release = true;
    } else if p.tcp.flags.ack {
        // acknowledges our data segment: nothing to do
    } else {
        counter.inc(TcpStatistics::Unexpected);
        r.group = GROUP_KNI;
    }
    proof {
        assert(final(c).con_rec.states@.subrange(0, old(c).con_rec.states@.len() as int) =~= old(c).con_rec.states@);
    }
    r
}

/// Server side, the flags of an inbound segment for a peer socket.
pub fn server_flags(c: &mut Connection, p: &mut Packet, counter: &mut TcpCounter, now: u64, rxq: u16) -> (r: SegmentOutcome)
    requires
        old(c).wf(),
        old(p)@.wf(),
        old(counter).wf(),
    ensures
        server_flags_step(*old(c), old(p)@, *old(counter), now, rxq, *final(c), final(p)@, *final(counter), r),
{
    let old_state = c.last_state();
    let mut r = SegmentOutcome { group: GROUP_DROP, release: false, ready: false, schedule_timeout: false };
    if old_state != TcpState::Listen && p.tcp.seq != c.ackn_nxt {
        // out of sequence: a lost or repeated segment; the state stays
    } else if p.tcp.flags.syn {
        if old_state == TcpState::Listen {
            c.syn_received(p, now);
            // the record's server index holds the receive queue on this side
            c.con_rec.server_index = rxq as usize;
            counter.inc(TcpStatistics::SentSynAck);
            r.group = GROUP_NIC;
            r.schedule_timeout = true;
        }
    } else if p.tcp.flags.fin {
        if old_state.at_least(TcpState::FinWait1) {
            r.release = c.active_close(p, counter, old_state);
        } else {
            c.passive_close(p, counter);
        }
        r.group = GROUP_NIC;
    } else if p.tcp.flags.rst {
        counter.inc(TcpStatistics::RecvRst);
        c.push_state(TcpState::Closed);
        c.released(ReleaseCause::PassiveRst);
        r.release = true;
    } else if p.tcp.flags.ack && p.tcp.ack == c.seqn_nxt {
        match old_state {
            TcpState::SynReceived => {
                c.push_state(TcpState::Established);
                counter.inc(TcpStatistics::RecvSynAck2);
            },
            TcpState::LastAck => {
                counter.inc(TcpStatistics::RecvFinAck2);
                c.push_state(TcpState::Closed);
                c.released(ReleaseCause::PassiveClose);
                r.release = true;
            },
            TcpState::FinWait1 => {
                c.push_state(TcpState::FinWait2);
            },
            TcpState::Closing => {
                c.push_state(TcpState::Closed);
                r.release = true;
            },
            _ => {},
        }
    }
    proof {
        assert(final(c).con_rec.states@.subrange(0, old(c).con_rec.states@.len() as int) =~= old(c).con_rec.states@);
    }
    r
}

/// Server side, the payload of an inbound segment, after its flags were
/// handled; `old_state` is the state the segment found. The first data
/// segment names the client's port and uuid and, in Established, is
/// answered with our FIN (in a later state it is taken in without an
/// answer); later ones only move the expected sequence number.
pub fn server_payload(
    c: &mut Connection,
    p: &mut Packet,
    counter: &mut TcpCounter,
    old_state: TcpState,
    flags_outcome: SegmentOutcome,
) -> (r: SegmentOutcome)
    requires
        old(c).wf(),
        old(p)@.wf(),
        old(counter).wf(),
        flags_outcome.group <= GROUP_NIC,
    ensures
        server_payload_step(*old(c), old(p)@, *old(counter), old_state, flags_outcome, *final(c), final(p)@, *final(counter), r),
{
    let mut r = flags_outcome;
    if old_state.at_least(TcpState::Established) && p.tcp_payload_len() > 0 {
        if c.con_rec.payload_packets == 0 {
            let payload = p.payload_bytes();
            if let Some(cdata) = CData::decode(payload.as_slice()) {
                c.con_rec.client_port = cdata.client_port;
                c.con_rec.uuid = cdata.uuid;
            }
            if old_state == TcpState::Established {
                c.s_reply_with_fin(p);
                counter.inc(TcpStatistics::SentFin);
                c.released(ReleaseCause::ActiveClose);
                c.push_state(TcpState::FinWait1);
                r.group = GROUP_NIC;
            }
            counter.inc(TcpStatistics::Payload);
            c.con_rec.payload_packets = 1;
        } else {
            c.ackn_nxt = p.tcp.seq.wrapping_add(p.tcp_payload_len() as u32);
        }
    }
    proof {
        assert(final(c).con_rec.states@.subrange(0, old(c).con_rec.states@.len() as int) =~= old(c).con_rec.states@);
    }
    r
}

/// The decoding of `b` holds a uuid.
pub open spec fn decodes_uuid_some(b: Seq<u8>) -> bool {
    b[8] == 1
}

} // verus!

verus! {

/// The server-side transition of a whole segment: its flags, then, unless
/// its sequence number drifted, its payload.
pub open spec fn server_segment_step(
    c0: Connection,
    p0: PacketView,
    k0: TcpCounter,
    now: u64,
    rxq: u16,
    c1: Connection,
    p1: PacketView,
    k1: TcpCounter,
    r: SegmentOutcome,
) -> bool {
    exists|cm: Connection, pm: PacketView, km: TcpCounter, o1: SegmentOutcome|
        #[trigger] server_flags_step(c0, p0, k0, now, rxq, cm, pm, km, o1) && (if seq_drift(c0, p0, TcpState::Listen) {
            c1 == cm && p1 == pm && k1 == km && r == o1
        } else {
            server_payload_step(cm, pm, km, c0.state(), o1, c1, p1, k1, r)
        })
}

/// Server side, an inbound segment for a peer socket.
pub fn server_segment(c: &mut Connection, p: &mut Packet, counter: &mut TcpCounter, now: u64, rxq: u16) -> (r: SegmentOutcome)
    requires
        old(c).wf(),
        old(p)@.wf(),
        old(counter).wf(),
    ensures
        server_segment_step(*old(c), old(p)@, *old(counter), now, rxq, *final(c), final(p)@, *final(counter), r),
        final(c).wf(),
        final(p)@.wf(),
        final(counter).wf(),
        r.group <= GROUP_NIC,
        final(c).port == old(c).port,
        final(c).role == old(c).role,
{
    let old_state = c.last_state();
    let drift = old_state != TcpState::Listen && p.tcp.seq != c.ackn_nxt;
    let o1 = server_flags(c, p, counter, now, rxq);
    if drift {
        o1
    } else {
        server_payload(c, p, counter, old_state, o1)
    }
}

} // verus!
