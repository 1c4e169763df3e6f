use nftraffic::cdata::CData;
use nftraffic::machine::{GROUP_DROP, GROUP_KNI, GROUP_NIC};
use nftraffic::packet::{IpHeader, L234Data, MacHeader, Packet, TcpFlags, TcpHeader, TxOffload};
use nftraffic::pipeline::{Pipeline, PRIVATE_ETYPE_PACKET, PRIVATE_ETYPE_TIMER};
use nftraffic::tcp_common::{ReleaseCause, TcpState, TcpStatistics};

const ME_MAC: u64 = 0x02_00_00_00_00_01;
const SERVER_MAC: u64 = 0xAA_BB_CC_DD_EE_FF;
const DUT_MAC: u64 = 0x02_00_00_00_00_09;
const ENGINE_IP: u32 = 0x0A00_0001; // 10.0.0.1
const SERVER_IP: u32 = 0x0A00_0002; // 10.0.0.2
const DUT_IP: u32 = 0x0A00_0009;

fn flags(syn: bool, ack: bool, fin: bool, rst: bool, psh: bool) -> TcpFlags {
    TcpFlags { cwr: false, ece: false, urg: false, ack, psh, rst, syn, fin }
}

#[allow(clippy::too_many_arguments)]
fn frame(
    dst_mac: u64,
    src_mac: u64,
    etype: u16,
    src_ip: u32,
    dst_ip: u32,
    protocol: u8,
    src_port: u16,
    dst_port: u16,
    seq: u32,
    ack: u32,
    f: TcpFlags,
    payload: &[u8],
) -> Packet {
    Packet {
        mac: MacHeader { dst: dst_mac, src: src_mac, etype },
        ip: IpHeader {
            version: 4,
            ihl: 5,
            tos: 0,
            length: 40 + payload.len() as u16,
            id: 0,
            flags_to_frag_offset: 0,
            ttl: 64,
            protocol,
            csum: 0,
            src: src_ip,
            dst: dst_ip,
        },
        tcp: TcpHeader {
            src_port,
            dst_port,
            seq,
            ack,
            data_offset: 5,
            flags: f,
            window: 1000,
            csum: 0,
            urgent: 0,
        },
        tail: payload.to_vec(),
        offload: TxOffload { tcp_ipv4_csum: false, l2_len: 0, l3_len: 0, l4_len: 0 },
    }
}

fn injector_frame(port: u16) -> Packet {
    frame(ME_MAC, ME_MAC, PRIVATE_ETYPE_PACKET, ENGINE_IP, ENGINE_IP, 6, 0, port, 0, 0, flags(false, false, false, false, false), &[])
}

fn tick_frame() -> Packet {
    frame(ME_MAC, ME_MAC, PRIVATE_ETYPE_TIMER, ENGINE_IP, ENGINE_IP, 6, 0, 0, 0, 0, flags(false, false, false, false, false), &[])
}

fn from_server(port: u16, seq: u32, ack: u32, f: TcpFlags) -> Packet {
    frame(ME_MAC, SERVER_MAC, 0x0800, SERVER_IP, ENGINE_IP, 6, 80, port, seq, ack, f, &[])
}

fn pipeline(listen_port: u16, nr_connections: usize) -> Pipeline {
    let me = L234Data { mac: ME_MAC, ip: ENGINE_IP, port: listen_port };
    let servers = vec![L234Data { mac: SERVER_MAC, ip: SERVER_IP, port: 80 }];
    // a 1 MHz clock: wheel slots of 100 000 cycles, checked every 100 ticks
    Pipeline::new(me, ENGINE_IP, servers, nr_connections, 1024, 64, 0, false, 1_000_000, 100, 1000, 0)
}

/// Sends the SYN and answers it with a SYN-ACK of sequence number `x`;
/// returns the client port and our initial sequence number.
fn handshake(pl: &mut Pipeline, x: u32) -> (u16, u32) {
    let mut syn = injector_frame(1);
    let v = pl.process_frame(&mut syn, 10);
    assert_eq!(v.group, GROUP_NIC);
    let port = syn.tcp.src_port;
    let seqn0 = syn.tcp.seq;
    let mut synack = from_server(port, x, seqn0.wrapping_add(1), flags(true, true, false, false, false));
    let v = pl.process_frame(&mut synack, 20);
    assert_eq!(v.group, GROUP_NIC);
    (port, seqn0)
}

#[test]
fn full_client_handshake() {
    let mut pl = pipeline(0, 1);
    let mut syn = injector_frame(1);
    let v = pl.process_frame(&mut syn, 10);
    assert_eq!(v.group, GROUP_NIC);
    assert!(!v.poll_control);
    assert!(syn.tcp.flags.syn && !syn.tcp.flags.ack && !syn.tcp.flags.fin);
    assert_eq!(syn.mac.etype, 0x0800);
    assert_eq!(syn.mac.dst, SERVER_MAC);
    assert_eq!(syn.mac.src, ME_MAC);
    assert_eq!(syn.ip.dst, SERVER_IP);
    assert_eq!(syn.ip.src, ENGINE_IP);
    assert_eq!(syn.tcp.dst_port, 80);
    assert_eq!(syn.tcp.ack, 0);
    assert_eq!(syn.tcp.window, 5840);
    assert_eq!(syn.tcp.seq, 10 << 8);
    let port = syn.tcp.src_port;
    assert!(pl.cm_c.owns_tcp_port(port));
    let seqn0 = syn.tcp.seq;

    let x: u32 = 777_000;
    let mut synack = from_server(port, x, seqn0 + 1, flags(true, true, false, false, false));
    let v = pl.process_frame(&mut synack, 20);
    assert_eq!(v.group, GROUP_NIC);
    assert!(synack.tcp.flags.ack && !synack.tcp.flags.syn);
    assert_eq!(synack.tcp.seq, seqn0 + 1);
    assert_eq!(synack.tcp.ack, x + 1);
    assert_eq!(synack.tcp.src_port, port);
    assert_eq!(synack.tcp.dst_port, 80);
    assert_eq!(synack.ip.dst, SERVER_IP);
    assert_eq!(synack.ip.ttl, 63);
    assert_eq!(pl.counter_to.get(TcpStatistics::SentSyn), 1);
    assert_eq!(pl.counter_to.get(TcpStatistics::RecvSynAck), 1);
    assert_eq!(pl.counter_to.get(TcpStatistics::SentSynAck2), 1);
    let c = pl.cm_c.get_by_port(port).unwrap();
    assert_eq!(c.con_rec.states, vec![TcpState::SynSent, TcpState::Established]);
    assert!(pl.payload_injector_ready);
    assert_eq!(pl.cm_c.ready_connections(), 1);
}

#[test]
fn syn_quota_stops_injector() {
    let mut pl = pipeline(0, 1);
    assert!(pl.syn_injector_ready);
    let mut syn = injector_frame(1);
    assert_eq!(pl.process_frame(&mut syn, 10).group, GROUP_NIC);
    assert!(!pl.syn_injector_ready);
    let mut again = injector_frame(1);
    assert_eq!(pl.process_frame(&mut again, 11).group, GROUP_DROP);
    assert_eq!(pl.counter_to.get(TcpStatistics::SentSyn), 1);
}

#[test]
fn payload_injection_carries_cdata() {
    let mut pl = pipeline(8080, 1);
    let (port, seqn0) = handshake(&mut pl, 5000);
    let uuid = pl.cm_c.get_by_port(port).unwrap().con_rec.uuid;
    assert!(uuid.is_some());
    let mut data = injector_frame(2);
    let v = pl.process_frame(&mut data, 30);
    assert_eq!(v.group, GROUP_NIC);
    assert!(data.tcp.flags.psh && data.tcp.flags.ack && !data.tcp.flags.syn);
    assert_eq!(data.tcp.seq, seqn0 + 1);
    assert_eq!(data.tcp.ack, 5001);
    assert_eq!(data.tcp.src_port, port);
    assert_eq!(data.tcp.dst_port, 80);
    let payload = data.payload_bytes();
    assert_eq!(payload.len(), 33);
    let d = CData::decode(&payload).unwrap();
    assert_eq!(d, CData { peer_ip: ENGINE_IP, peer_port: 8080, client_port: port, uuid });
    assert_eq!(pl.counter_to.get(TcpStatistics::Payload), 1);
    assert_eq!(pl.cm_c.get_by_port(port).unwrap().seqn_nxt, seqn0 + 1 + 33);
    // no connection is left ready: the injector stops
    assert!(!pl.payload_injector_ready);
    let mut idle = injector_frame(2);
    assert_eq!(pl.process_frame(&mut idle, 31).group, GROUP_DROP);
}

#[test]
fn server_records_cdata_and_closes() {
    let mut pl = pipeline(8080, 0);
    let dut = |seq: u32, ack: u32, f: TcpFlags, payload: &[u8]| {
        frame(ME_MAC, DUT_MAC, 0x0800, DUT_IP, ENGINE_IP, 6, 40000, 8080, seq, ack, f, payload)
    };
    let mut syn = dut(1000, 0, flags(true, false, false, false, false), &[]);
    assert_eq!(pl.process_frame(&mut syn, 5000).group, GROUP_NIC);
    assert!(syn.tcp.flags.syn && syn.tcp.flags.ack);
    assert_eq!(syn.tcp.ack, 1001);
    assert_eq!(syn.tcp.seq, 5000 << 8);
    assert_eq!(syn.tcp.window, 5840);
    assert_eq!(syn.ip.dst, DUT_IP);
    assert_eq!(syn.tcp.dst_port, 40000);
    let s0 = syn.tcp.seq;

    let mut ack = dut(1001, s0 + 1, flags(false, true, false, false, false), &[]);
    assert_eq!(pl.process_frame(&mut ack, 5001).group, GROUP_DROP);
    assert_eq!(pl.counter_from.get(TcpStatistics::RecvSynAck2), 1);

    let u = [7u8; 16];
    let bytes = CData { peer_ip: SERVER_IP, peer_port: 80, client_port: 12345, uuid: Some(u) }.encode();
    let mut data = dut(1001, s0 + 1, flags(false, true, false, false, true), &bytes);
    assert_eq!(pl.process_frame(&mut data, 5002).group, GROUP_NIC);
    assert!(data.tcp.flags.fin && data.tcp.flags.ack && !data.tcp.flags.psh);
    assert_eq!(data.tcp.seq, s0 + 1);
    assert_eq!(data.tcp.ack, 1001 + bytes.len() as u32);
    assert_eq!(data.tcp_payload_len(), 0);
    assert_eq!(pl.counter_from.get(TcpStatistics::Payload), 1);
    assert_eq!(pl.counter_from.get(TcpStatistics::SentFin), 1);
    let c = pl.cm_s.get(DUT_IP, 40000).unwrap();
    assert_eq!(c.con_rec.client_port, 12345);
    assert_eq!(c.con_rec.uuid, Some(u));
    assert_eq!(
        c.con_rec.states,
        vec![TcpState::Listen, TcpState::SynReceived, TcpState::Established, TcpState::FinWait1]
    );
    assert_eq!(c.con_rec.release_cause, Some(ReleaseCause::ActiveClose));
}

#[test]
fn passive_close_on_dut_fin() {
    let mut pl = pipeline(0, 1);
    let x: u32 = 9000;
    let (port, seqn0) = handshake(&mut pl, x);
    let mut fin = from_server(port, x + 1, seqn0 + 1, flags(false, true, true, false, false));
    assert_eq!(pl.process_frame(&mut fin, 40).group, GROUP_NIC);
    assert!(fin.tcp.flags.fin && fin.tcp.flags.ack);
    assert_eq!(fin.tcp.seq, seqn0 + 1);
    assert_eq!(fin.tcp.ack, x + 2);
    let c = pl.cm_c.get_by_port(port).unwrap();
    assert_eq!(c.last_state(), TcpState::LastAck);
    assert_eq!(c.seqn_nxt, seqn0 + 2);

    let mut last = from_server(port, x + 2, seqn0 + 2, flags(false, true, false, false, false));
    assert_eq!(pl.process_frame(&mut last, 41).group, GROUP_DROP);
    assert!(pl.cm_c.get_by_port(port).is_none());
    assert_eq!(pl.counter_to.get(TcpStatistics::RecvFinAck2), 1);
    let (client, server) = pl.fetch_c_records();
    assert!(server.is_empty());
    assert_eq!(client.len(), 1);
    assert_eq!(client[0].release_cause, Some(ReleaseCause::PassiveClose));
    assert_eq!(client[0].last_state(), TcpState::Closed);
}

#[test]
fn rst_releases_connection() {
    let mut pl = pipeline(0, 1);
    let x: u32 = 100;
    let (port, _) = handshake(&mut pl, x);
    let mut rst = from_server(port, x + 1, 0, flags(false, false, false, true, false));
    assert_eq!(pl.process_frame(&mut rst, 50).group, GROUP_DROP);
    assert!(pl.cm_c.get_by_port(port).is_none());
    assert_eq!(pl.counter_to.get(TcpStatistics::RecvRst), 1);
    let (client, _) = pl.fetch_c_records();
    assert_eq!(client[0].release_cause, Some(ReleaseCause::PassiveRst));
    assert_eq!(client[0].last_state(), TcpState::Closed);
}

#[test]
fn rst_releases_server_connection() {
    let mut pl = pipeline(8080, 0);
    let mut syn = frame(ME_MAC, DUT_MAC, 0x0800, DUT_IP, ENGINE_IP, 6, 40001, 8080, 1, 0, flags(true, false, false, false, false), &[]);
    assert_eq!(pl.process_frame(&mut syn, 10).group, GROUP_NIC);
    let mut rst = frame(ME_MAC, DUT_MAC, 0x0800, DUT_IP, ENGINE_IP, 6, 40001, 8080, 2, 0, flags(false, false, false, true, false), &[]);
    assert_eq!(pl.process_frame(&mut rst, 11).group, GROUP_DROP);
    assert!(pl.cm_s.get(DUT_IP, 40001).is_none());
    let (_, server) = pl.fetch_c_records();
    assert_eq!(server.len(), 1);
    assert_eq!(server[0].release_cause, Some(ReleaseCause::PassiveRst));
}

#[test]
fn timeout_releases_unanswered_syn() {
    let mut pl = pipeline(0, 1);
    let mut syn = injector_frame(1);
    assert_eq!(pl.process_frame(&mut syn, 10).group, GROUP_NIC);
    let port = syn.tcp.src_port;
    let seqn0 = syn.tcp.seq;
    for i in 0..99 {
        let mut t = tick_frame();
        let v = pl.process_frame(&mut t, 300_000 + i);
        assert_eq!(v.group, GROUP_DROP);
        assert!(v.poll_control);
    }
    assert!(pl.cm_c.get_by_port(port).is_some());
    let mut t = tick_frame();
    pl.process_frame(&mut t, 300_100);
    assert!(pl.cm_c.get_by_port(port).is_none());
    let (client, _) = pl.fetch_c_records();
    assert_eq!(client[0].release_cause, Some(ReleaseCause::Timeout));
    let mut late = from_server(port, 1, seqn0 + 1, flags(true, true, false, false, false));
    assert_eq!(pl.process_frame(&mut late, 300_200).group, GROUP_KNI);
    assert_eq!(pl.counter_to.get(TcpStatistics::Unexpected), 1);
}

#[test]
fn established_connection_survives_timeout() {
    let mut pl = pipeline(0, 1);
    let (port, _) = handshake(&mut pl, 1);
    for i in 0..100 {
        let mut t = tick_frame();
        pl.process_frame(&mut t, 300_000 + i);
    }
    assert!(pl.cm_c.get_by_port(port).is_some());
}

#[test]
fn kni_passthrough() {
    let mut pl = pipeline(0, 1);
    let none = flags(false, false, false, false, false);
    let mut v6 = frame(ME_MAC, SERVER_MAC, 0x86DD, SERVER_IP, ENGINE_IP, 6, 80, 1024, 0, 0, none, &[]);
    assert_eq!(pl.process_frame(&mut v6, 1).group, GROUP_KNI);
    let mut udp = frame(ME_MAC, SERVER_MAC, 0x0800, SERVER_IP, ENGINE_IP, 17, 80, 1024, 0, 0, none, &[]);
    assert_eq!(pl.process_frame(&mut udp, 2).group, GROUP_KNI);
    let mut unowned = frame(ME_MAC, SERVER_MAC, 0x0800, SERVER_IP, ENGINE_IP, 6, 80, 5000, 0, 0, none, &[]);
    assert_eq!(pl.process_frame(&mut unowned, 3).group, GROUP_KNI);
    let mut below = frame(ME_MAC, SERVER_MAC, 0x0800, SERVER_IP, ENGINE_IP, 6, 80, 80, 0, 0, none, &[]);
    assert_eq!(pl.process_frame(&mut below, 4).group, GROUP_KNI);
    let mut other_ip = frame(ME_MAC, SERVER_MAC, 0x0800, SERVER_IP, 0x0A00_0063, 6, 80, 1024, 0, 0, none, &[]);
    assert_eq!(pl.process_frame(&mut other_ip, 5).group, GROUP_KNI);
    // untouched on the way to the kernel
    assert_eq!(unowned.ip.ttl, 64);
}

#[test]
fn foreign_mac_dropped() {
    let mut pl = pipeline(0, 1);
    let none = flags(false, false, false, false, false);
    let mut f = frame(0x02_00_00_00_00_77, SERVER_MAC, 0x0800, SERVER_IP, ENGINE_IP, 6, 80, 1024, 0, 0, none, &[]);
    assert_eq!(pl.process_frame(&mut f, 1).group, GROUP_DROP);
    let mut bcast = frame(0xffff_ffff_ffff, SERVER_MAC, 0x0806, SERVER_IP, ENGINE_IP, 6, 80, 1024, 0, 0, none, &[]);
    assert_eq!(pl.process_frame(&mut bcast, 2).group, GROUP_KNI);
}

#[test]
fn sequence_drift_keeps_state() {
    let mut pl = pipeline(0, 1);
    let x: u32 = 400;
    let (port, _) = handshake(&mut pl, x);
    let mut fin = from_server(port, x + 50, 0, flags(false, true, true, false, false));
    assert_eq!(pl.process_frame(&mut fin, 60).group, GROUP_DROP);
    let c = pl.cm_c.get_by_port(port).unwrap();
    assert_eq!(c.last_state(), TcpState::Established);
}

#[test]
fn bytes_through_pipeline() {
    let mut pl = pipeline(0, 1);
    let mut v6 = vec![0u8; 60];
    v6[0..6].copy_from_slice(&[0x02, 0, 0, 0, 0, 0x01]);
    v6[12] = 0x86;
    v6[13] = 0xDD;
    let before = v6.clone();
    assert_eq!(pl.process_bytes(&mut v6, 1).group, GROUP_KNI);
    assert_eq!(v6, before);
    let mut short = vec![0u8; 10];
    assert_eq!(pl.process_bytes(&mut short, 2).group, GROUP_DROP);
    let mut syn = injector_frame(1).to_bytes();
    assert_eq!(pl.process_bytes(&mut syn, 3).group, GROUP_NIC);
    let out = Packet::parse(&syn).unwrap();
    assert!(out.tcp.flags.syn);
    assert_eq!(out.ip.dst, SERVER_IP);
}

#[test]
fn server_drift_keeps_state() {
    let mut pl = pipeline(8080, 0);
    let dut = |seq: u32, ack: u32, f: TcpFlags, payload: &[u8]| {
        frame(ME_MAC, DUT_MAC, 0x0800, DUT_IP, ENGINE_IP, 6, 40002, 8080, seq, ack, f, payload)
    };
    let mut syn = dut(1000, 0, flags(true, false, false, false, false), &[]);
    assert_eq!(pl.process_frame(&mut syn, 5000).group, GROUP_NIC);
    let s0 = syn.tcp.seq;
    let mut ack = dut(1001, s0 + 1, flags(false, true, false, false, false), &[]);
    assert_eq!(pl.process_frame(&mut ack, 5001).group, GROUP_DROP);
    let bytes = CData { peer_ip: SERVER_IP, peer_port: 80, client_port: 1, uuid: None }.encode();
    let mut data = dut(1500, s0 + 1, flags(false, true, false, false, true), &bytes);
    assert_eq!(pl.process_frame(&mut data, 5002).group, GROUP_DROP);
    let c = pl.cm_s.get(DUT_IP, 40002).unwrap();
    assert_eq!(c.last_state(), TcpState::Established);
    assert_eq!(c.con_rec.payload_packets, 0);
    assert_eq!(pl.counter_from.get(TcpStatistics::SentFin), 0);
}

#[test]
fn passive_fin_ack_strips_data() {
    let mut pl = pipeline(0, 1);
    let x: u32 = 9000;
    let (port, seqn0) = handshake(&mut pl, x);
    let mut fin = frame(ME_MAC, SERVER_MAC, 0x0800, SERVER_IP, ENGINE_IP, 6, 80, port, x + 1, seqn0 + 1, flags(false, true, true, false, true), &[1, 2, 3]);
    assert_eq!(pl.process_frame(&mut fin, 40).group, GROUP_NIC);
    assert!(fin.tcp.flags.fin && fin.tcp.flags.ack && !fin.tcp.flags.psh);
    assert_eq!(fin.tcp_payload_len(), 0);
    assert_eq!(fin.tcp.seq, seqn0 + 1);
    assert_eq!(fin.tcp.ack, x + 1 + 3 + 1);
    assert_eq!(pl.cm_c.get_by_port(port).unwrap().seqn_nxt, seqn0 + 2);
}

#[test]
fn server_data_after_established_not_echoed() {
    let mut pl = pipeline(8080, 0);
    let dut = |seq: u32, ack: u32, f: TcpFlags, payload: &[u8]| {
        frame(ME_MAC, DUT_MAC, 0x0800, DUT_IP, ENGINE_IP, 6, 40003, 8080, seq, ack, f, payload)
    };
    let mut syn = dut(1000, 0, flags(true, false, false, false, false), &[]);
    pl.process_frame(&mut syn, 5000);
    let s0 = syn.tcp.seq;
    let mut ack = dut(1001, s0 + 1, flags(false, true, false, false, false), &[]);
    pl.process_frame(&mut ack, 5001);
    // the peer closes first: we answer with FIN-ACK and wait in LastAck
    let mut fin = dut(1001, s0 + 1, flags(false, true, true, false, false), &[]);
    assert_eq!(pl.process_frame(&mut fin, 5002).group, GROUP_NIC);
    let mut data = dut(1002, s0 + 1, flags(false, false, false, false, true), &[5, 6, 7]);
    assert_eq!(pl.process_frame(&mut data, 5003).group, GROUP_DROP);
    let c = pl.cm_s.get(DUT_IP, 40003).unwrap();
    assert_eq!(c.last_state(), TcpState::LastAck);
    assert_eq!(c.con_rec.payload_packets, 1);
}
