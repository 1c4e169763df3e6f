//! Properties that relate several operations, or that hold of every state.
use vstd::prelude::*;
use crate::cdata::{CData, cdata_decodable, decodes_to, octets, le16, decoded_ip, decoded_u16};
use crate::connection::{
    Connection, add32, handshake_ack_of, fin_reply_of, passive_fin_ack_of, final_ack_of,
};
use crate::machine::{
    GROUP_NIC, SegmentOutcome, client_step, seq_drift, server_flags_step, server_payload_step,
    server_segment_step,
};
use crate::tcp_common::{TcpCounter, TcpState};
use crate::packet::{L234Data, PacketView, MIN_FRAME_SIZE, FIXED_HEADERS_LEN};
use crate::pipeline::Pipeline;
use crate::tcp_common::TcpStatistics;

verus! {

broadcast use crate::packet::lemma_checksums_keep;

/// Turning a frame around twice gives back its MAC, IPv4 and TCP endpoints.
pub proof fn lemma_reply_twice_restores_endpoints(v: PacketView, inc: u32)
    ensures
        v.reply(inc).reply(inc).mac.src == v.mac.src,
        v.reply(inc).reply(inc).mac.dst == v.mac.dst,
        v.reply(inc).reply(inc).ip.src == v.ip.src,
        v.reply(inc).reply(inc).ip.dst == v.ip.dst,
        v.reply(inc).reply(inc).tcp.src_port == v.tcp.src_port,
        v.reply(inc).reply(inc).tcp.dst_port == v.tcp.dst_port,
{
}

/// Each reply acknowledges `seq + payload + inc` afresh from the segment's
/// own sequence number, so after two replies the acknowledgement number is
/// `seq + payload + inc` of the original frame.
pub proof fn lemma_reply_twice_ack(v: PacketView, inc: u32)
    ensures
        v.reply(inc).reply(inc).tcp.ack == add32(v.tcp.seq, v.payload_len() + inc),
{
}

/// Removing TCP options changes nothing in a frame without options, and so
/// doing it twice is doing it once.
pub proof fn lemma_remove_options_idempotent(v: PacketView)
    ensures
        v.tcp.data_offset == 5 ==> v.without_options() == v,
        v.without_options().without_options() == v.without_options(),
{
}

/// Decoding the encoding of a payload gives it back.
pub proof fn lemma_cdata_round_trip(d: CData)
    ensures
        cdata_decodable(d.bytes()),
        decodes_to(d.bytes(), d),
{
    let b = d.bytes();
    let x = d.peer_ip;
    assert(decoded_ip(octets(x)) == x) by {
        let b0 = (x / 0x100_0000) as u8;
        let b1 = (x / 0x1_0000 % 256) as u8;
        let b2 = (x / 256 % 256) as u8;
        let b3 = (x % 256) as u8;
        assert(b0 as nat * 0x100_0000 + b1 as nat * 0x1_0000 + b2 as nat * 256 + b3 as nat == x) by (nonlinear_arith)
            requires
                b0 == x / 0x100_0000,
                b1 == x / 0x1_0000 % 256,
                b2 == x / 256 % 256,
                b3 == x % 256,
                x < 0x1_0000_0000,
        ;
    }
    assert(b.subrange(0, 4) =~= octets(x));
    assert(decoded_ip(b) == decoded_ip(octets(x)));
    assert(decoded_u16(b, 4) == d.peer_port) by {
        assert(b[4] == le16(d.peer_port)[0] && b[5] == le16(d.peer_port)[1]);
    }
    assert(decoded_u16(b, 6) == d.client_port) by {
        assert(b[6] == le16(d.client_port)[0] && b[7] == le16(d.client_port)[1]);
    }
    match d.uuid {
        None => {},
        Some(a) => {
            assert(b.subrange(9, 17) =~= crate::cdata::len16_prefix());
            assert(b.subrange(17, 33) =~= a@);
        },
    }
}

/// A data segment built from a frame grows the buffer by the payload and
/// is then at least the minimum frame size: its length is the larger of the
/// two, its IPv4 length grows by the payload, and every byte added beyond
/// the old buffer and the payload is zero.
pub proof fn lemma_payload_frame_padded(
    v: PacketView,
    server: L234Data,
    port: u16,
    me: L234Data,
    payload: Seq<u8>,
    seq: u32,
    ack: u32,
)
    requires
        v.wf(),
        v.ip.length + payload.len() <= 0xffff,
    ensures
        v.with_payload(server, port, me, payload, seq, ack).data_len() == (if v.data_len() + payload.len()
            < MIN_FRAME_SIZE {
            MIN_FRAME_SIZE as int
        } else {
            v.data_len() + payload.len()
        }),
        v.with_payload(server, port, me, payload, seq, ack).ip.length == v.ip.length + payload.len(),
        forall|i: int|
            v.tail.len() + payload.len() <= i < v.with_payload(server, port, me, payload, seq, ack).tail.len()
                ==> #[trigger] v.with_payload(server, port, me, payload, seq, ack).tail[i] == 0,
        forall|i: int|
            v.tail.len() <= i < v.tail.len() + payload.len() && !(v.options_len() <= i < v.options_len()
                + payload.len()) ==> #[trigger] v.with_payload(server, port, me, payload, seq, ack).tail[i] == 0,
{
}

/// The time-to-live of zero is left as it is.
pub proof fn lemma_ttl_zero_unchanged(v: PacketView)
    requires
        v.ip.ttl == 0,
    ensures
        v.with_ttl_decremented() == v,
        v.with_ttl_done().ip.ttl == 0,
{
}

/// How far a segment moves our sequence numbers: one for SYN, one for FIN,
/// and its payload.
pub open spec fn seq_space(v: PacketView) -> int {
    (if v.tcp.flags.syn { 1int } else { 0 }) + (if v.tcp.flags.fin { 1int } else { 0 }) + v.payload_len()
}

/// Every answer the state machines build carries our next sequence number
/// `s`, no payload and no SYN, and takes up the sequence space by which the
/// transition moves it on: none for the handshake ACK and the final ACK,
/// one for a FIN-ACK.
pub proof fn lemma_outbound_sequence(v: PacketView, s: u32)
    requires
        v.wf(),
    ensures
        handshake_ack_of(v, s).tcp.seq == s,
        seq_space(handshake_ack_of(v, s)) == 0,
        fin_reply_of(v, s).tcp.seq == s,
        seq_space(fin_reply_of(v, s)) == 1,
        passive_fin_ack_of(v, s).tcp.seq == s,
        seq_space(passive_fin_ack_of(v, s)) == 1,
        final_ack_of(v, s).tcp.seq == s,
        seq_space(final_ack_of(v, s)) == 0,
{
}

/// On the client side, every segment sent from Established on carries the
/// connection's next sequence number, which moves on by the segment's
/// sequence space.
pub proof fn lemma_client_outbound_sequence(
    c0: Connection,
    p0: PacketView,
    k0: TcpCounter,
    c1: Connection,
    p1: PacketView,
    k1: TcpCounter,
    r: SegmentOutcome,
)
    requires
        c0.wf(),
        p0.wf(),
        client_step(c0, p0, k0, c1, p1, k1, r),
        r.group == GROUP_NIC,
        c0.state().rank_spec() >= TcpState::Established.rank_spec(),
    ensures
        p1.tcp.seq == c0.seqn_nxt,
        c1.seqn_nxt == add32(c0.seqn_nxt, seq_space(p1)),
{
    lemma_outbound_sequence(p0, c0.seqn_nxt);
    assert(c0.seqn_nxt == add32(c0.seqn_nxt, 0));
}

/// The same on the server side.
pub proof fn lemma_server_outbound_sequence(
    c0: Connection,
    p0: PacketView,
    k0: TcpCounter,
    now: u64,
    rxq: u16,
    c1: Connection,
    p1: PacketView,
    k1: TcpCounter,
    r: SegmentOutcome,
)
    requires
        c0.wf(),
        p0.wf(),
        server_segment_step(c0, p0, k0, now, rxq, c1, p1, k1, r),
        r.group == GROUP_NIC,
        c0.state().rank_spec() >= TcpState::Established.rank_spec(),
    ensures
        p1.tcp.seq == c0.seqn_nxt,
        c1.seqn_nxt == add32(c0.seqn_nxt, seq_space(p1)),
{
    lemma_outbound_sequence(p0, c0.seqn_nxt);
    assert(c0.seqn_nxt == add32(c0.seqn_nxt, 0));
    let (cm, pm, km, o1) = choose|cm: Connection, pm: PacketView, km: TcpCounter, o1: SegmentOutcome|
        #[trigger] server_flags_step(c0, p0, k0, now, rxq, cm, pm, km, o1) && (if seq_drift(c0, p0, TcpState::Listen) {
            c1 == cm && p1 == pm && k1 == km && r == o1
        } else {
            server_payload_step(cm, pm, km, c0.state(), o1, c1, p1, k1, r)
        });
    if !seq_drift(c0, p0, TcpState::Listen) && pm.payload_len() > 0 {
        assert(cm.seqn_nxt == c0.seqn_nxt);
        lemma_outbound_sequence(pm, cm.seqn_nxt);
    }
}

/// No more SYNs go out than the pipeline's quota, and once the quota is
/// reached the SYN injector stands still.
pub proof fn lemma_syn_quota(pl: Pipeline)
    requires
        pl.inv(),
    ensures
        pl.counter_to.spec_get(TcpStatistics::SentSyn) <= pl.nr_connections,
        pl.counter_to.spec_get(TcpStatistics::SentSyn) == pl.nr_connections ==> !pl.syn_injector_ready,
{
}

/// Every connection a pipeline holds, on either side, has a state history
/// of at least one state; its last entry is its current state.
pub proof fn lemma_connections_have_state(pl: Pipeline, port: u16, sock: u64)
    requires
        pl.inv(),
    ensures
        pl.cm_c.con(port).is_some() ==> pl.cm_c.con(port).unwrap().con_rec.states@.len() >= 1
            && pl.cm_c.con(port).unwrap().state() == pl.cm_c.con(port).unwrap().con_rec.states@.last(),
        pl.cm_s.con(sock).is_some() ==> pl.cm_s.con(sock).unwrap().con_rec.states@.len() >= 1
            && pl.cm_s.con(sock).unwrap().state() == pl.cm_s.con(sock).unwrap().con_rec.states@.last(),
{
    if pl.cm_c.con(port).is_some() {
        pl.cm_c.lemma_con_not_free(port);
    }
    if pl.cm_s.con(sock).is_some() {
        pl.cm_s.lemma_con_wf(sock);
    }
}

/// The payload injector runs exactly while a client connection is queued
/// as ready.
pub proof fn lemma_payload_gate(pl: Pipeline)
    requires
        pl.inv(),
    ensures
        pl.payload_injector_ready <==> pl.cm_c.ready_queue().len() > 0,
{
}

} // verus!
