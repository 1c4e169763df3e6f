//! Frames as bytes: Ethernet, IPv4 and TCP headers in network byte order.
use vstd::prelude::*;
use crate::packet::{
    FIXED_HEADERS_LEN, IpHeader, MacAddr, MacHeader, Packet, PacketView, TcpFlags, TcpHeader, TxOffload,
};

verus! {

pub open spec fn be16(b: Seq<u8>, i: int) -> nat {
    b[i] as nat * 0x100 + b[i + 1] as nat
}

pub open spec fn be32(b: Seq<u8>, i: int) -> nat {
    be16(b, i) * 0x1_0000 + be16(b, i + 2)
}

pub open spec fn be48(b: Seq<u8>, i: int) -> nat {
    be16(b, i) * 0x1_0000_0000 + be32(b, i + 2)
}

pub open spec fn bit(x: u8, k: nat) -> bool {
    (x as nat / pow2(k)) % 2 == 1
}

pub open spec fn pow2(k: nat) -> nat
    decreases k,
{
    if k == 0 {
        1
    } else {
        2 * pow2((k - 1) as nat)
    }
}

/// The headers and tail read from `b`, which holds at least the fixed headers.
pub open spec fn parsed(b: Seq<u8>) -> PacketView {
    PacketView {
        mac: MacHeader { dst: be48(b, 0) as u64, src: be48(b, 6) as u64, etype: be16(b, 12) as u16 },
        ip: IpHeader {
            version: b[14] / 16,
            ihl: b[14] % 16,
            tos: b[15],
            length: be16(b, 16) as u16,
            id: be16(b, 18) as u16,
            flags_to_frag_offset: be16(b, 20) as u16,
            ttl: b[22],
            protocol: b[23],
            csum: be16(b, 24) as u16,
            src: be32(b, 26) as u32,
            dst: be32(b, 30) as u32,
        },
        tcp: TcpHeader {
            src_port: be16(b, 34) as u16,
            dst_port: be16(b, 36) as u16,
            seq: be32(b, 38) as u32,
            ack: be32(b, 42) as u32,
            data_offset: b[46] / 16,
            flags: TcpFlags {
                cwr: bit(b[47], 7),
                ece: bit(b[47], 6),
                urg: bit(b[47], 5),
                ack: bit(b[47], 4),
                psh: bit(b[47], 3),
                rst: bit(b[47], 2),
                syn: bit(b[47], 1),
                fin: bit(b[47], 0),
            },
            window: be16(b, 48) as u16,
            csum: be16(b, 50) as u16,
            urgent: be16(b, 52) as u16,
        },
        tail: b.skip(FIXED_HEADERS_LEN as int),
        offload: TxOffload { tcp_ipv4_csum: false, l2_len: 0, l3_len: 0, l4_len: 0 },
    }
}

pub open spec fn put16(x: u16) -> Seq<u8> {
    seq![(x / 0x100) as u8, (x % 0x100) as u8]
}

pub open spec fn put32(x: u32) -> Seq<u8> {
    put16((x / 0x1_0000) as u16) + put16((x % 0x1_0000) as u16)
}

pub open spec fn put48(x: u64) -> Seq<u8> {
    put16((x / 0x1_0000_0000 % 0x1_0000) as u16) + put32((x % 0x1_0000_0000) as u32)
}

/// The flag byte of a TCP header.
pub open spec fn flag_bits(f: TcpFlags) -> u8 {
    crate::checksum::flags_byte(f) as u8
}

/// The bytes of a frame: headers in network byte order, then the tail.
pub open spec fn frame_bytes(v: PacketView) -> Seq<u8> {
    put48(v.mac.dst) + put48(v.mac.src) + put16(v.mac.etype) + seq![
        (v.ip.version * 16 + v.ip.ihl) as u8,
        v.ip.tos,
    ] + put16(v.ip.length) + put16(v.ip.id) + put16(v.ip.flags_to_frag_offset) + seq![v.ip.ttl, v.ip.protocol]
        + put16(v.ip.csum) + put32(v.ip.src) + put32(v.ip.dst) + put16(v.tcp.src_port) + put16(v.tcp.dst_port)
        + put32(v.tcp.seq) + put32(v.tcp.ack) + seq![(v.tcp.data_offset * 16) as u8, flag_bits(v.tcp.flags)]
        + put16(v.tcp.window) + put16(v.tcp.csum) + put16(v.tcp.urgent) + v.tail
}

fn wr16(out: &mut Vec<u8>, x: u16)
    ensures
        final(out)@ == old(out)@ + put16(x),
{
    out.push((x / 0x100) as u8);
    out.push((x % 0x100) as u8);
    assert(final(out)@ =~= old(out)@ + put16(x));
}

fn wr32(out: &mut Vec<u8>, x: u32)
    ensures
        final(out)@ == old(out)@ + put32(x),
{
    wr16(out, (x / 0x1_0000) as u16);
    wr16(out, (x % 0x1_0000) as u16);
    assert(final(out)@ =~= old(out)@ + put32(x));
}

fn wr48(out: &mut Vec<u8>, x: u64)
    ensures
        final(out)@ == old(out)@ + put48(x),
{
    wr16(out, (x / 0x1_0000_0000 % 0x1_0000) as u16);
    wr32(out, (x % 0x1_0000_0000) as u32);
    assert(final(out)@ =~= old(out)@ + put48(x));
}

fn rd16(b: &[u8], i: usize) -> (r: u16)
    requires
        i + 2 <= b@.len(),
    ensures
        r == be16(b@, i as int),
{
    b[i] as u16 * 0x100 + b[i + 1] as u16
}

fn rd32(b: &[u8], i: usize) -> (r: u32)
    requires
        i + 4 <= b@.len(),
    ensures
        r == be32(b@, i as int),
{
    assert(b@.len() == b.len());
    let hi = rd16(b, i) as u32;
    let lo = rd16(b, i + 2) as u32;
    hi * 0x1_0000 + lo
}

/// The MAC address at `b[i..i + 6]`.
pub fn read_mac(b: &[u8], i: usize) -> (r: MacAddr)
    requires
        i + 6 <= b@.len(),
    ensures
        r == be48(b@, i as int),
{
    assert(b@.len() == b.len());
    let hi = rd16(b, i) as u64;
    let lo = rd32(b, i + 2) as u64;
    hi * 0x1_0000_0000 + lo
}

fn rd_bit(x: u8, k: u8) -> (r: bool)
    requires
        k < 8,
    ensures
        r == bit(x, k as nat),
{
    proof {
        reveal_with_fuel(pow2, 8);
    }
    let d: u8 = if k == 0 {
        1
    } else if k == 1 {
        2
    } else if k == 2 {
        4
    } else if k == 3 {
        8
    } else if k == 4 {
        16
    } else if k == 5 {
        32
    } else if k == 6 {
        64
    } else {
        128
    };
    (x / d) % 2 == 1
}

impl Packet {
    /// Reads a frame; `None` unless it holds the fixed headers and they
    /// are consistent (see `PacketView::wf`).
    pub fn parse(b: &[u8]) -> (r: Option<Packet>)
        ensures
            r.is_some() == (b@.len() >= FIXED_HEADERS_LEN && parsed(b@).wf()),
            r.is_some() ==> r.unwrap()@ == parsed(b@),
    {
        if b.len() < FIXED_HEADERS_LEN {
            return None;
        }
        let f = b[47];
        let mut tail: Vec<u8> = Vec::new();
        let mut i: usize = FIXED_HEADERS_LEN;
        while i < b.len()
            invariant
                FIXED_HEADERS_LEN <= i <= b@.len(),
                tail@ == b@.subrange(FIXED_HEADERS_LEN as int, i as int),
            decreases b@.len() - i,
        {
            tail.push(b[i]);
            i = i + 1;
            assert(tail@ =~= b@.subrange(FIXED_HEADERS_LEN as int, i as int));
        }
        assert(tail@ =~= b@.skip(FIXED_HEADERS_LEN as int));
        let p = Packet {
            mac: MacHeader { dst: read_mac(b, 0), src: read_mac(b, 6), etype: rd16(b, 12) },
            ip: IpHeader {
                version: b[14] / 16,
                ihl: b[14] % 16,
                tos: b[15],
                length: rd16(b, 16),
                id: rd16(b, 18),
                flags_to_frag_offset: rd16(b, 20),
                ttl: b[22],
                protocol: b[23],
                csum: rd16(b, 24),
                src: rd32(b, 26),
                dst: rd32(b, 30),
            },
            tcp: TcpHeader {
                src_port: rd16(b, 34),
                dst_port: rd16(b, 36),
                seq: rd32(b, 38),
                ack: rd32(b, 42),
                data_offset: b[46] / 16,
                flags: TcpFlags {
                    cwr: rd_bit(f, 7),
                    ece: rd_bit(f, 6),
                    urg: rd_bit(f, 5),
                    ack: rd_bit(f, 4),
                    psh: rd_bit(f, 3),
                    rst: rd_bit(f, 2),
                    syn: rd_bit(f, 1),
                    fin: rd_bit(f, 0),
                },
                window: rd16(b, 48),
                csum: rd16(b, 50),
                urgent: rd16(b, 52),
            },
            tail,
            offload: TxOffload { tcp_ipv4_csum: false, l2_len: 0, l3_len: 0, l4_len: 0 },
        };
        if p.ip.ihl == 5 && 5 <= p.tcp.data_offset && p.tcp.data_offset <= 15 && p.ip.length as usize >= 20
            + p.tcp.data_offset as usize * 4 && 40 + p.tail.len() >= p.ip.length as usize && p.tail.len() <= 0xffff {
            Some(p)
        } else {
            None
        }
    }

    /// Writes the frame out; see `frame_bytes`.
    pub fn to_bytes(&self) -> (r: Vec<u8>)
        ensures
            r@ == frame_bytes(self@),
    {
        let mut out: Vec<u8> = Vec::new();
        wr48(&mut out, self.mac.dst);
        wr48(&mut out, self.mac.src);
        wr16(&mut out, self.mac.etype);
        out.push((self.ip.version as u32 * 16 + self.ip.ihl as u32) as u8);
        out.push(self.ip.tos);
        wr16(&mut out, self.ip.length);
        wr16(&mut out, self.ip.id);
        wr16(&mut out, self.ip.flags_to_frag_offset);
        out.push(self.ip.ttl);
        out.push(self.ip.protocol);
        wr16(&mut out, self.ip.csum);
        wr32(&mut out, self.ip.src);
        wr32(&mut out, self.ip.dst);
        wr16(&mut out, self.tcp.src_port);
        wr16(&mut out, self.tcp.dst_port);
        wr32(&mut out, self.tcp.seq);
        wr32(&mut out, self.tcp.ack);
        out.push((self.tcp.data_offset as u32 * 16) as u8);
        out.push(crate::checksum::flags_byte_exec(&self.tcp.flags) as u8);
        wr16(&mut out, self.tcp.window);
        wr16(&mut out, self.tcp.csum);
        wr16(&mut out, self.tcp.urgent);
        let ghost head = out@;
        let mut i: usize = 0;
        while i < self.tail.len()
            invariant
                i <= self.tail@.len(),
                out@ == head + self.tail@.subrange(0, i as int),
            decreases self.tail@.len() - i,
        {
            out.push(self.tail[i]);
            i = i + 1;
            assert(out@ =~= head + self.tail@.subrange(0, i as int));
        }
        assert(out@ =~= frame_bytes(self@));
        out
    }
}

} // verus!
