use nftraffic::cdata::CData;
use nftraffic::packet::{IpHeader, L234Data, MacHeader, Packet, TcpFlags, TcpHeader, TxOffload};
use nftraffic::tcp_common::{TcpCounter, TcpState, TcpStatistics};
use nftraffic::timer_wheel::TimerWheel;

fn no_flags() -> TcpFlags {
    TcpFlags { cwr: false, ece: false, urg: false, ack: false, psh: false, rst: false, syn: false, fin: false }
}

fn packet(tail: Vec<u8>, data_offset: u8, ip_length: u16) -> Packet {
    Packet {
        mac: MacHeader { dst: 0x11, src: 0x22, etype: 0x0800 },
        ip: IpHeader {
            version: 4,
            ihl: 5,
            tos: 0,
            length: ip_length,
            id: 0,
            flags_to_frag_offset: 0,
            ttl: 64,
            protocol: 6,
            csum: 0,
            src: 0x0A00_0001,
            dst: 0x0A00_0002,
        },
        tcp: TcpHeader {
            src_port: 1111,
            dst_port: 2222,
            seq: 1000,
            ack: 5,
            data_offset,
            flags: no_flags(),
            window: 100,
            csum: 0,
            urgent: 0,
        },
        tail,
        offload: TxOffload { tcp_ipv4_csum: false, l2_len: 0, l3_len: 0, l4_len: 0 },
    }
}

fn ip_words_sum(ip: &IpHeader) -> u32 {
    let words: [u32; 10] = [
        ((ip.version as u32 * 16 + ip.ihl as u32) << 8) + ip.tos as u32,
        ip.length as u32,
        ip.id as u32,
        ip.flags_to_frag_offset as u32,
        ((ip.ttl as u32) << 8) + ip.protocol as u32,
        ip.csum as u32,
        ip.src >> 16,
        ip.src & 0xffff,
        ip.dst >> 16,
        ip.dst & 0xffff,
    ];
    let mut s: u32 = words.iter().sum();
    while s > 0xffff {
        s = (s & 0xffff) + (s >> 16);
    }
    s
}

#[test]
fn ip_checksum_known_header() {
    // the classic example header 4500 0073 0000 4000 4011 ---- c0a8 0001 c0a8 00c7
    let mut p = packet(vec![0; 0x73 - 40], 5, 0x73);
    p.ip.flags_to_frag_offset = 0x4000;
    p.ip.protocol = 0x11;
    p.ip.src = 0xc0a8_0001;
    p.ip.dst = 0xc0a8_00c7;
    p.update_ip_checksum();
    assert_eq!(p.ip.csum, 0xb861);
}

#[test]
fn prepare_checksum_software_and_offload() {
    let mut p = packet(vec![1, 2, 3], 5, 43);
    p.prepare_checksum();
    assert_eq!(ip_words_sum(&p.ip), 0xffff);
    // TCP: pseudo header + header + payload sums to 0xffff with the checksum in place
    let t = &p.tcp;
    let fl = t.flags;
    let fb = (fl.ack as u32) << 4 | (fl.psh as u32) << 3 | (fl.rst as u32) << 2 | (fl.syn as u32) << 1 | fl.fin as u32;
    let mut s: u32 = (p.ip.src >> 16) + (p.ip.src & 0xffff) + (p.ip.dst >> 16) + (p.ip.dst & 0xffff) + 6 + 23;
    s += t.src_port as u32 + t.dst_port as u32 + (t.seq >> 16) + (t.seq & 0xffff) + (t.ack >> 16) + (t.ack & 0xffff);
    s += ((t.data_offset as u32) << 12) + fb + t.window as u32 + t.csum as u32 + t.urgent as u32;
    s += 0x0102 + 0x0300;
    while s > 0xffff {
        s = (s & 0xffff) + (s >> 16);
    }
    assert_eq!(s, 0xffff);

    let mut q = packet(vec![], 5, 40);
    q.offload.tcp_ipv4_csum = true;
    q.ip.csum = 0x1234;
    q.prepare_checksum();
    assert_eq!(q.ip.csum, 0);
    assert_eq!(q.offload.l2_len, 14);
    assert_eq!(q.offload.l3_len, 20);
    assert_eq!(q.offload.l4_len, 20);
    let pseudo = (0x0A00u32 + 0x0001 + 0x0A00 + 0x0002 + 6 + 20) as u16;
    assert_eq!(q.tcp.csum, pseudo);
}

#[test]
fn reply_twice_restores_endpoints() {
    let mut p = packet(vec![9; 10], 5, 50);
    let orig = p.clone();
    p.make_reply_packet(1);
    assert_eq!(p.ip.src, orig.ip.dst);
    assert_eq!(p.tcp.src_port, orig.tcp.dst_port);
    assert_eq!(p.tcp.ack, 1000 + 10 + 1);
    assert!(p.tcp.flags.ack);
    p.make_reply_packet(1);
    assert_eq!(p.mac, orig.mac);
    assert_eq!(p.ip.src, orig.ip.src);
    assert_eq!(p.ip.dst, orig.ip.dst);
    assert_eq!(p.tcp.src_port, orig.tcp.src_port);
    assert_eq!(p.tcp.dst_port, orig.tcp.dst_port);
    // the acknowledgement is computed afresh from the sequence number each time
    assert_eq!(p.tcp.ack, 1011);
}

#[test]
fn reply_ack_wraps() {
    let mut p = packet(vec![], 5, 40);
    p.tcp.seq = u32::MAX;
    p.make_reply_packet(1);
    assert_eq!(p.tcp.ack, 0);
}

#[test]
fn remove_tcp_options_idempotent() {
    let mut p = packet(vec![1, 1, 1, 1, 2, 2, 2, 2], 7, 48);
    p.remove_tcp_options();
    assert_eq!(p.tcp.data_offset, 5);
    assert_eq!(p.ip.length, 40);
    assert!(p.tail.is_empty());
    let once = p.clone();
    p.remove_tcp_options();
    assert_eq!(p.tcp, once.tcp);
    assert_eq!(p.ip, once.ip);
    assert_eq!(p.tail, once.tail);
}

#[test]
fn strip_payload_shrinks() {
    let mut p = packet(vec![5; 12], 5, 52);
    p.strip_payload();
    assert_eq!(p.ip.length, 40);
    assert_eq!(p.tcp_payload_len(), 0);
    assert!(p.tail.is_empty());
}

#[test]
fn small_frames_are_padded() {
    let mut p = packet(vec![], 5, 40);
    let server = L234Data { mac: 0xAA, ip: 0x0A00_0002, port: 80 };
    let me = L234Data { mac: 0xBB, ip: 0x0A00_0001, port: 0 };
    p.make_payload_packet(&server, 1025, &me, &vec![7u8, 8u8], 10, 20);
    assert_eq!(p.data_len(), 60);
    assert_eq!(p.tail, vec![7, 8, 0, 0, 0, 0]);
    assert_eq!(p.ip.length, 42);
    assert_eq!(p.tcp.seq, 10);
    assert_eq!(p.tcp.ack, 20);
    assert_eq!(p.tcp.window, 5840);
    assert_eq!(p.mac.dst, 0xAA);
    assert_eq!(p.tcp.src_port, 1025);
    assert_eq!(p.payload_bytes(), vec![7, 8]);

    let mut big = packet(vec![], 5, 40);
    big.make_payload_packet(&server, 1025, &me, &vec![1u8; 30], 0, 0);
    assert_eq!(big.data_len(), 84);
}

#[test]
fn ttl_zero_unchanged() {
    let mut p = packet(vec![], 5, 40);
    p.ip.ttl = 0;
    p.do_ttl();
    assert_eq!(p.ip.ttl, 0);
    let mut q = packet(vec![], 5, 40);
    q.do_ttl();
    assert_eq!(q.ip.ttl, 63);
    assert_eq!(ip_words_sum(&q.ip), 0xffff);
}

#[test]
fn cdata_exact_bytes() {
    let d = CData { peer_ip: 0x0A00_0001, peer_port: 80, client_port: 12345, uuid: None };
    assert_eq!(d.encode(), vec![10, 0, 0, 1, 80, 0, 0x39, 0x30, 0]);
    let u: [u8; 16] = [1, 2, 3, 4, 5, 6, 7, 8, 9, 10, 11, 12, 13, 14, 15, 16];
    let e = CData { uuid: Some(u), ..d }.encode();
    assert_eq!(e.len(), 33);
    assert_eq!(&e[8..17], &[1, 16, 0, 0, 0, 0, 0, 0, 0]);
    assert_eq!(&e[17..], &u);
}

#[test]
fn cdata_round_trip() {
    let u = [0xabu8; 16];
    for d in [
        CData { peer_ip: 0xC0A8_0101, peer_port: 443, client_port: 1, uuid: Some(u) },
        CData { peer_ip: 0, peer_port: 0, client_port: 65535, uuid: None },
    ] {
        assert_eq!(CData::decode(&d.encode()), Some(d));
    }
    // trailing bytes are ignored
    let mut b = CData { peer_ip: 1, peer_port: 2, client_port: 3, uuid: None }.encode();
    b.extend_from_slice(&[0, 0, 0]);
    assert_eq!(CData::decode(&b).unwrap().client_port, 3);
}

#[test]
fn cdata_decode_errors() {
    assert_eq!(CData::decode(&[10, 0, 0, 1, 80, 0, 0x39, 0x30]), None);
    assert_eq!(CData::decode(&[10, 0, 0, 1, 80, 0, 0x39, 0x30, 2]), None);
    let mut wrong_len = vec![10, 0, 0, 1, 80, 0, 0x39, 0x30, 1, 15, 0, 0, 0, 0, 0, 0, 0];
    wrong_len.extend_from_slice(&[0; 16]);
    assert_eq!(CData::decode(&wrong_len), None);
    let mut short = vec![10, 0, 0, 1, 80, 0, 0x39, 0x30, 1, 16, 0, 0, 0, 0, 0, 0, 0];
    short.extend_from_slice(&[0; 15]);
    assert_eq!(CData::decode(&short), None);
}

#[test]
fn timer_wheel_early_release_empty() {
    let mut w: TimerWheel<u16> = TimerWheel::new(128, 1000, 50);
    w.schedule(0, 50, 7);
    w.schedule(2500, 50, 8);
    assert!(w.release(1049).is_empty());
    assert_eq!(w.release(1050), vec![7]);
    assert!(w.release(2000).is_empty());
    assert!(w.release(3049).is_empty());
    assert_eq!(w.release(3050), vec![8]);
}

#[test]
fn timer_wheel_clamps_to_one_turn() {
    let mut w: TimerWheel<u64> = TimerWheel::new(4, 10, 0);
    w.schedule(1_000_000, 0, 99);
    assert_eq!(w.release(39), Vec::<u64>::new());
    assert_eq!(w.release(40), vec![99]);
}

#[test]
fn counter_and_state_order() {
    let mut c = TcpCounter::new();
    c.inc(TcpStatistics::Payload);
    c.inc(TcpStatistics::Payload);
    assert_eq!(c.get(TcpStatistics::Payload), 2);
    assert_eq!(c.get(TcpStatistics::SentSyn), 0);
    assert!(TcpState::Closed.at_least(TcpState::FinWait1));
    assert!(!TcpState::Established.at_least(TcpState::FinWait1));
}

#[test]
fn wire_bytes_round_trip() {
    let mut p = packet(vec![1, 2, 3, 4, 0xaa, 0xbb], 6, 46);
    p.mac = MacHeader { dst: 0x0102_0304_0506, src: 0xA1A2_A3A4_A5A6, etype: 0x0800 };
    p.tcp.flags = TcpFlags { syn: true, ack: true, ..no_flags() };
    p.tcp.seq = 0x1122_3344;
    let b = p.to_bytes();
    assert_eq!(b.len(), 60);
    assert_eq!(&b[0..6], &[1, 2, 3, 4, 5, 6]);
    assert_eq!(&b[12..14], &[0x08, 0x00]);
    assert_eq!(b[14], 0x45);
    assert_eq!(&b[38..42], &[0x11, 0x22, 0x33, 0x44]);
    assert_eq!(b[46], 0x60);
    assert_eq!(b[47], 0x12);
    let q = Packet::parse(&b).unwrap();
    assert_eq!(q.mac, p.mac);
    assert_eq!(q.ip, p.ip);
    assert_eq!(q.tcp, p.tcp);
    assert_eq!(q.tail, p.tail);
}

#[test]
fn wire_parse_rejects() {
    assert!(Packet::parse(&[0u8; 53]).is_none());
    let mut p = packet(vec![], 5, 40);
    p.ip.length = 60; // claims more bytes than the frame holds
    assert!(Packet::parse(&p.to_bytes()).is_none());
}

#[test]
fn payload_extends_buffer() {
    // a 60-byte frame: 6 bytes of padding behind the headers
    let mut p = packet(vec![0xee; 6], 5, 40);
    let server = L234Data { mac: 0xAA, ip: 0x0A00_0002, port: 80 };
    let me = L234Data { mac: 0xBB, ip: 0x0A00_0001, port: 0 };
    let payload: Vec<u8> = (1..=9).collect();
    p.make_payload_packet(&server, 1025, &me, &payload, 0, 0);
    assert_eq!(p.data_len(), 69);
    assert_eq!(p.ip.length, 49);
    assert_eq!(p.payload_bytes(), payload);
    assert_eq!(&p.tail[9..], &[0u8; 6]);
}
