//! A half connection and the transitions that answer a segment with one
//! built in place from it.
use vstd::prelude::*;
use crate::packet::{
    ETYPE_IPV4, WINDOW_SIZE, L234Data, MacHeader, Packet, PacketView, TcpFlags, TcpHeader,
};
use crate::tcp_common::{ConRecord, ReleaseCause, TcpCounter, TcpRole, TcpState, TcpStatistics};

verus! {

/// `a + b` modulo 2^32, as sequence numbers add.
pub open spec fn add32(a: u32, b: int) -> u32 {
    ((a + b) % 0x1_0000_0000) as u32
}

/// The initial sequence number drawn from the cycle counter: `now << 8`,
/// cut to 32 bits.
pub open spec fn isn(now: u64) -> u32 {
    ((now % 0x100_0000) * 256) as u32
}

pub fn initial_seqn(now: u64) -> (r: u32)
    ensures
        r == isn(now),
{
    ((now % 0x100_0000) * 256) as u32
}

/// `v` with sequence number `seq`.
pub open spec fn with_seq(v: PacketView, seq: u32) -> PacketView {
    PacketView { tcp: TcpHeader { seq, ..v.tcp }, ..v }
}

/// `v` with flags `f`.
pub open spec fn with_flags(v: PacketView, f: TcpFlags) -> PacketView {
    PacketView { tcp: TcpHeader { flags: f, ..v.tcp }, ..v }
}

/// The SYN-ACK that answers the SYN `v`: options removed, turned around,
/// with our initial sequence number `seq` and the standard window.
pub open spec fn syn_ack_of(v: PacketView, seq: u32) -> PacketView {
    let r = v.without_options().reply(1);
    PacketView { tcp: TcpHeader { seq, window: WINDOW_SIZE, ..r.tcp }, ..r }
}

/// The ACK that completes our handshake, answering the SYN-ACK `v`: a
/// pure acknowledgement, without SYN, FIN or payload.
pub open spec fn handshake_ack_of(v: PacketView, seq: u32) -> PacketView {
    let r = v.reply(1);
    with_seq(with_flags(r, TcpFlags { syn: false, fin: false, psh: false, ..r.tcp.flags }), seq).without_payload()
}

/// The FIN-ACK with which we close after the data segment `v`, payload stripped.
pub open spec fn fin_reply_of(v: PacketView, seq: u32) -> PacketView {
    let r = v.reply(0);
    with_seq(with_flags(r, TcpFlags { syn: false, psh: false, fin: true, ..r.tcp.flags }), seq).without_payload()
}

/// The FIN-ACK answering a FIN `v` from the peer, payload stripped.
pub open spec fn passive_fin_ack_of(v: PacketView, seq: u32) -> PacketView {
    let r = v.reply(1);
    with_seq(with_flags(r, TcpFlags { syn: false, psh: false, fin: true, ..r.tcp.flags }), seq).without_payload()
}

/// The ACK answering the peer's FIN `v` after our own FIN, payload stripped.
pub open spec fn final_ack_of(v: PacketView, seq: u32) -> PacketView {
    let r = v.reply(1);
    with_seq(with_flags(r, TcpFlags { syn: false, psh: false, fin: false, ack: true, ..r.tcp.flags }), seq).without_payload()
}

/// A SYN from `me` (port `port`) to `server`, sequence number `seq`, the
/// standard window, no other flag.
pub open spec fn syn_of(v: PacketView, server: L234Data, port: u16, me: L234Data, seq: u32) -> PacketView {
    let h = v.with_header(server, port, me);
    PacketView {
        mac: MacHeader { etype: ETYPE_IPV4, ..h.mac },
        tcp: TcpHeader {
            seq,
            ack: 0,
            window: WINDOW_SIZE,
            flags: TcpFlags {
                cwr: false,
                ece: false,
                urg: false,
                ack: false,
                psh: false,
                rst: false,
                syn: true,
                fin: false,
            },
            ..h.tcp
        },
        ..h
    }
}

/// The peer's FIN acknowledges our own FIN.
pub open spec fn acks_our_fin(c: Connection, v: PacketView) -> bool {
    v.tcp.flags.ack && v.tcp.ack == c.seqn_nxt
}

/// Whether the peer's FIN after our own closes the connection.
pub open spec fn active_close_closes(c: Connection, v: PacketView, state: TcpState) -> bool {
    acks_our_fin(c, v) || state == TcpState::FinWait2
}

/// The states after the peer's FIN that follows our own.
pub open spec fn active_close_states(c: Connection, v: PacketView, state: TcpState) -> Seq<TcpState> {
    if acks_our_fin(c, v) {
        c.con_rec.states@.push(TcpState::Closed)
    } else if state == TcpState::FinWait1 {
        c.con_rec.states@.push(TcpState::Closing)
    } else if state == TcpState::FinWait2 {
        c.con_rec.states@.push(TcpState::Closed)
    } else {
        c.con_rec.states@
    }
}

/// A half connection, seen from this side.
#[derive(Clone, Debug)]
pub struct Connection {
    /// The local TCP port: drawn from the pool for a client, the listen port
    /// for a server.
    pub port: u16,
    /// The peer's IPv4 address and port.
    pub dut_ip: u32,
    pub dut_port: u16,
    /// The peer's Ethernet header as last learned.
    pub dut_mac: MacHeader,
    /// The next sequence number to send.
    pub seqn_nxt: u32,
    /// The next sequence number expected from the peer.
    pub ackn_nxt: u32,
    pub con_rec: ConRecord,
    pub role: TcpRole,
}

impl Connection {
    /// The record holds at least one state.
    pub open spec fn wf(&self) -> bool {
        self.con_rec.states@.len() >= 1
    }

    pub open spec fn state(&self) -> TcpState {
        self.con_rec.states@.last()
    }

    /// A fresh connection in its first state.
    pub fn new(port: u16, role: TcpRole, first: TcpState) -> (r: Connection)
        ensures
            r.wf(),
            r.con_rec.states@ == seq![first],
            r.port == port,
            r.role == role,
            r.seqn_nxt == 0,
            r.ackn_nxt == 0,
            r.con_rec.payload_packets == 0,
            r.con_rec.server_index == 0,
            r.con_rec.release_cause.is_none(),
            r.con_rec.uuid.is_none(),
    {
        Connection {
            port,
            dut_ip: 0,
            dut_port: 0,
            dut_mac: MacHeader { dst: 0, src: 0, etype: 0 },
            seqn_nxt: 0,
            ackn_nxt: 0,
            con_rec: ConRecord::new(first),
            role,
        }
    }

    /// The current state.
    pub fn last_state(&self) -> (r: TcpState)
        requires
            self.wf(),
        ensures
            r == self.state(),
    {
        self.con_rec.last_state()
    }

    pub fn push_state(&mut self, s: TcpState)
        requires
            old(self).wf(),
        ensures
            final(self).wf(),
            final(self).con_rec.states@ == old(self).con_rec.states@.push(s),
            final(self).state() == s,
            (Connection { con_rec: ConRecord { states: old(self).con_rec.states, ..final(self).con_rec }, ..*final(self) }) == *old(self),
    {
        self.con_rec.push_state(s);
    }

    /// Records why the connection ends.
    pub fn released(&mut self, cause: ReleaseCause)
        ensures
            *final(self) == (Connection { con_rec: ConRecord { release_cause: Some(cause), ..old(self).con_rec }, ..*old(self) }),
    {
        self.con_rec.release_cause = Some(cause);
    }

    /// Everything but the sequence numbers, the peer and the record's states
    /// and release cause is as in `o`.
    pub open spec fn same_identity(&self, o: &Connection) -> bool {
        &&& self.port == o.port
        &&& self.role == o.role
        &&& self.con_rec.server_index == o.con_rec.server_index
        &&& self.con_rec.payload_packets == o.con_rec.payload_packets
        &&& self.con_rec.uuid == o.con_rec.uuid
        &&& self.con_rec.client_port == o.con_rec.client_port
    }

    /// The peer is as in `o`.
    pub open spec fn same_peer(&self, o: &Connection) -> bool {
        &&& self.dut_ip == o.dut_ip
        &&& self.dut_port == o.dut_port
        &&& self.dut_mac == o.dut_mac
    }

    /// Server side, a SYN in Listen: learns the peer, answers with a SYN-ACK
    /// built from the SYN, and moves to SynReceived.
    pub fn syn_received(&mut self, p: &mut Packet, now: u64)
        requires
            old(self).wf(),
            old(p)@.wf(),
        ensures
            final(self).wf(),
            final(self).con_rec.states@ == old(self).con_rec.states@.push(TcpState::SynReceived),
            final(self).con_rec.release_cause == old(self).con_rec.release_cause,
            final(self).same_identity(old(self)),
            final(self).dut_mac == old(p).mac,
            final(self).dut_ip == old(p).ip.src,
            final(self).dut_port == old(p).tcp.src_port,
            final(p)@ == syn_ack_of(old(p)@, isn(now)).with_checksums(),
            final(p)@.wf(),
            final(self).seqn_nxt == add32(isn(now), 1),
            final(self).ackn_nxt == final(p).tcp.ack,
    {
        self.push_state(TcpState::SynReceived);
        self.dut_mac = p.mac;
        self.dut_ip = p.ip.src;
        self.dut_port = p.tcp.src_port;
        p.remove_tcp_options();
        p.make_reply_packet(1);
        let seqn = initial_seqn(now);
        p.tcp.seq = seqn;
        p.tcp.window = WINDOW_SIZE;
        self.ackn_nxt = p.tcp.ack;
        self.seqn_nxt = seqn.wrapping_add(1);
        p.prepare_checksum();
    }

    /// Client side, a SYN-ACK: answers with the ACK that completes the handshake.
    pub fn synack_received(&mut self, p: &mut Packet)
        requires
            old(p)@.wf(),
        ensures
            final(p)@ == handshake_ack_of(old(p)@, old(self).seqn_nxt).with_checksums(),
            final(p)@.wf(),
            *final(self) == (Connection { ackn_nxt: final(p).tcp.ack, ..*old(self) }),
    {
        p.make_reply_packet(1);
        self.ackn_nxt = p.tcp.ack;
        p.tcp.flags.syn = false;
        p.tcp.flags.fin = false;
        p.tcp.flags.psh = false;
        p.tcp.seq = self.seqn_nxt;
        p.strip_payload();
        p.prepare_checksum();
    }

    /// Server side, the first data segment: answers it with our FIN-ACK,
    /// the payload stripped.
    pub fn s_reply_with_fin(&mut self, p: &mut Packet)
        requires
            old(p)@.wf(),
        ensures
            final(p)@ == fin_reply_of(old(p)@, old(self).seqn_nxt).with_checksums(),
            final(p)@.wf(),
            *final(self) == (Connection {
                ackn_nxt: final(p).tcp.ack,
                seqn_nxt: add32(old(self).seqn_nxt, 1),
                ..*old(self)
            }),
    {
        p.make_reply_packet(0);
        self.ackn_nxt = p.tcp.ack;
        p.tcp.seq = self.seqn_nxt;
        p.tcp.flags.psh = false;
        p.tcp.flags.fin = true;
        p.tcp.flags.syn = false;
        self.seqn_nxt = self.seqn_nxt.wrapping_add(1);
        p.strip_payload();
        p.prepare_checksum();
    }

    /// The peer closes first: answers its FIN with our FIN-ACK and moves to
    /// LastAck.
    pub fn passive_close(&mut self, p: &mut Packet, counter: &mut TcpCounter)
        requires
            old(self).wf(),
            old(p)@.wf(),
            old(counter).wf(),
        ensures
            final(self).wf(),
            final(self).con_rec.states@ == old(self).con_rec.states@.push(TcpState::LastAck),
            final(self).con_rec.release_cause == Some(ReleaseCause::PassiveClose),
            final(self).same_identity(old(self)),
            final(self).same_peer(old(self)),
            final(p)@ == passive_fin_ack_of(old(p)@, old(self).seqn_nxt).with_checksums(),
            final(p)@.wf(),
            final(self).ackn_nxt == final(p).tcp.ack,
            final(self).seqn_nxt == add32(old(self).seqn_nxt, 1),
            TcpCounter::bumped_twice(*old(counter), *final(counter), TcpStatistics::RecvFin, TcpStatistics::SentFinAck),
    {
        self.released(ReleaseCause::PassiveClose);
        counter.inc(TcpStatistics::RecvFin);
        let ghost mid = *counter;
        self.push_state(TcpState::LastAck);
        p.make_reply_packet(1);
        self.ackn_nxt = p.tcp.ack;
        p.tcp.flags.syn = false;
        p.tcp.flags.psh = false;
        p.tcp.flags.fin = true;
        p.tcp.seq = self.seqn_nxt;
        self.seqn_nxt = self.seqn_nxt.wrapping_add(1);
        p.strip_payload();
        p.prepare_checksum();
        counter.inc(TcpStatistics::SentFinAck);
        assert(TcpCounter::bumped(*old(counter), mid, TcpStatistics::RecvFin));
        assert(TcpCounter::bumped(mid, *counter, TcpStatistics::SentFinAck));
    }

    /// The peer's FIN after our own: it closes the connection when it
    /// acknowledges our FIN, or when we were waiting in FinWait2; in FinWait1
    /// without that acknowledgement we move to Closing. Answers with an ACK
    /// and tells whether the connection is closed.
    pub fn active_close(&mut self, p: &mut Packet, counter: &mut TcpCounter, state: TcpState) -> (closed: bool)
        requires
            old(self).wf(),
            old(p)@.wf(),
            old(counter).wf(),
        ensures
            final(self).wf(),
            closed == active_close_closes(*old(self), old(p)@, state),
            final(self).con_rec.states@ == active_close_states(*old(self), old(p)@, state),
            final(self).con_rec.release_cause == old(self).con_rec.release_cause,
            final(self).same_identity(old(self)),
            final(self).same_peer(old(self)),
            final(p)@ == final_ack_of(old(p)@, old(self).seqn_nxt).with_checksums(),
            final(p)@.wf(),
            final(self).ackn_nxt == final(p).tcp.ack,
            final(self).seqn_nxt == old(self).seqn_nxt,
            TcpCounter::bumped_twice(*old(counter), *final(counter), TcpStatistics::RecvFinAck, TcpStatistics::SentFinAck2),
    {
        let mut tcp_closed = false;
        counter.inc(TcpStatistics::RecvFinAck);
        let ghost mid = *counter;
        if p.tcp.flags.ack && p.tcp.ack == self.seqn_nxt {
            self.push_state(TcpState::Closed);
            tcp_closed = true;
        } else {
            if state == TcpState::FinWait1 {
                self.push_state(TcpState::Closing);
            } else if state == TcpState::FinWait2 {
                self.push_state(TcpState::Closed);
                tcp_closed = true;
            }
        }
        p.make_reply_packet(1);
        p.tcp.flags.fin = false;
        p.tcp.flags.syn = false;
        p.tcp.flags.psh = false;
        p.tcp.flags.ack = true;
        self.ackn_nxt = p.tcp.ack;
        p.tcp.seq = self.seqn_nxt;
        p.strip_payload();
        p.prepare_checksum();
        counter.inc(TcpStatistics::SentFinAck2);
        assert(TcpCounter::bumped(*old(counter), mid, TcpStatistics::RecvFinAck));
        assert(TcpCounter::bumped(mid, *counter, TcpStatistics::SentFinAck2));
        tcp_closed
    }

    /// Client side: turns an injector frame into our SYN to server
    /// `syn_count % servers.len()`, and counts it.
    pub fn generate_syn(
        &mut self,
        p: &mut Packet,
        me: &L234Data,
        servers: &Vec<L234Data>,
        counter: &mut TcpCounter,
        now: u64,
    )
        requires
            old(p)@.wf(),
            old(counter).wf(),
            servers@.len() > 0,
            old(counter).spec_get(TcpStatistics::SentSyn) < u64::MAX,
        ensures
            final(self).con_rec.server_index == old(counter).spec_get(TcpStatistics::SentSyn) % (servers@.len() as u64),
            final(p)@ == syn_of(
                old(p)@,
                servers@[final(self).con_rec.server_index as int],
                old(self).port,
                *me,
                isn(now),
            ).with_checksums(),
            final(p)@.wf(),
            final(self).seqn_nxt == add32(isn(now), 1),
            *final(self) == (Connection {
                seqn_nxt: final(self).seqn_nxt,
                con_rec: ConRecord { server_index: final(self).con_rec.server_index, ..old(self).con_rec },
                ..*old(self)
            }),
            TcpCounter::bumped(*old(counter), *final(counter), TcpStatistics::SentSyn),
    {
        p.mac.etype = ETYPE_IPV4;
        let idx = (counter.get(TcpStatistics::SentSyn) % servers.len() as u64) as usize;
        self.con_rec.server_index = idx;
        p.set_header(&servers[idx], self.port, me);
        let seqn = initial_seqn(now);
        p.tcp.seq = seqn;
        self.seqn_nxt = seqn.wrapping_add(1);
        p.tcp.flags = TcpFlags {
            cwr: false,
            ece: false,
            urg: false,
            ack: false,
            psh: false,
            rst: false,
            syn: true,
            fin: false,
        };
        p.tcp.window = WINDOW_SIZE;
        p.tcp.ack = 0;
        p.prepare_checksum();
        counter.inc(TcpStatistics::SentSyn);
    }
}

} // verus!
