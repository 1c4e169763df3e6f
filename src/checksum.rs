//! The Internet checksum (ones' complement sum of 16-bit big-endian words)
//! over the IPv4 header and over the TCP segment with its pseudo header.
use vstd::prelude::*;
use crate::packet::{IpHeader, TcpHeader, TcpFlags};

verus! {

/// Sum of the big-endian 16-bit words of `b`; an odd last byte is the high
/// byte of a word whose low byte is zero.
pub open spec fn byte_sum(b: Seq<u8>) -> nat
    decreases b.len(),
{
    if b.len() == 0 {
        0
    } else if b.len() == 1 {
        b[0] as nat * 256
    } else {
        b[0] as nat * 256 + b[1] as nat + byte_sum(b.skip(2))
    }
}

/// One end-around carry step.
pub open spec fn fold_once(n: nat) -> nat {
    n % 0x10000 + n / 0x10000
}

/// The ones' complement sum folded to 16 bits; two carry steps suffice for
/// any sum below 2^32.
pub open spec fn fold16(n: nat) -> nat {
    fold_once(fold_once(n))
}

/// The checksum field for a sum: the complement of the folded sum.
pub open spec fn complement16(n: nat) -> u16 {
    (0xffff - fold16(n)) as u16
}

pub proof fn lemma_fold16_bound(n: nat)
    requires
        n < 0x1_0000_0000,
    ensures
        fold16(n) <= 0xffff,
{
    let f1 = fold_once(n);
    assert(f1 <= 0x1fffe) by (nonlinear_arith)
        requires
            f1 == n % 0x10000 + n / 0x10000,
            n < 0x1_0000_0000,
    ;
    assert(fold_once(f1) <= 0xffff) by (nonlinear_arith)
        requires
            f1 <= 0x1fffe,
    ;
}

pub open spec fn hi16(x: u32) -> nat {
    x as nat / 0x10000
}

pub open spec fn lo16(x: u32) -> nat {
    x as nat % 0x10000
}

/// Sum of the words of an IPv4 header without options, its checksum field
/// counted as zero.
pub open spec fn ip_header_sum(ip: IpHeader) -> nat {
    (ip.version as nat * 16 + ip.ihl as nat) * 256 + ip.tos as nat + ip.length as nat + ip.id as nat
        + ip.flags_to_frag_offset as nat + ip.ttl as nat * 256 + ip.protocol as nat + hi16(ip.src)
        + lo16(ip.src) + hi16(ip.dst) + lo16(ip.dst)
}

/// The header checksum of an IPv4 header.
pub open spec fn ip_checksum(ip: IpHeader) -> u16 {
    complement16(ip_header_sum(ip))
}

pub open spec fn flag_value(set: bool, v: nat) -> nat {
    if set {
        v
    } else {
        0
    }
}

/// The flag bits of the TCP header as one byte.
pub open spec fn flags_byte(f: TcpFlags) -> nat {
    flag_value(f.cwr, 128) + flag_value(f.ece, 64) + flag_value(f.urg, 32) + flag_value(f.ack, 16)
        + flag_value(f.psh, 8) + flag_value(f.rst, 4) + flag_value(f.syn, 2) + flag_value(f.fin, 1)
}

/// Sum of the IPv4 pseudo header: addresses, protocol and TCP length.
pub open spec fn pseudo_header_sum(ip: IpHeader, tcp_len: nat) -> nat {
    hi16(ip.src) + lo16(ip.src) + hi16(ip.dst) + lo16(ip.dst) + ip.protocol as nat + tcp_len
}

/// Sum of the words of the fixed TCP header, its checksum field counted as zero.
pub open spec fn tcp_header_sum(t: TcpHeader) -> nat {
    t.src_port as nat + t.dst_port as nat + hi16(t.seq) + lo16(t.seq) + hi16(t.ack) + lo16(t.ack)
        + t.data_offset as nat * 4096 + flags_byte(t.flags) + t.window as nat + t.urgent as nat
}

/// Sum of the big-endian words of `b[0..n]`.
pub fn sum_bytes(b: &Vec<u8>, n: usize) -> (r: u64)
    requires
        n <= b@.len(),
        n <= 0xffff,
    ensures
        r == byte_sum(b@.subrange(0, n as int)),
        r <= n * 0x10000,
{
    let ghost s = b@.subrange(0, n as int);
    let mut r: u64 = 0;
    let mut i: usize = 0;
    assert(s.skip(0) =~= s);
    while i < n
        invariant
            i <= n,
            n <= b@.len(),
            n <= 0xffff,
            s == b@.subrange(0, n as int),
            r + byte_sum(s.skip(i as int)) == byte_sum(s),
            r <= i * 0x10000,
        decreases n - i,
    {
        let ghost rest = s.skip(i as int);
        if i + 1 < n {
            assert(rest.skip(2) =~= s.skip(i + 2));
            let w = b[i] as u64 * 256 + b[i + 1] as u64;
            assert(w <= 0xffff);
            r = r + w;
            i = i + 2;
        } else {
            let w = b[i] as u64 * 256;
            assert(w <= 0xff00);
            r = r + w;
            i = i + 1;
            assert(s.skip(i as int).len() == 0);
        }
    }
    r
}

/// Folds a sum below 2^32 to 16 bits with end-around carry.
pub fn fold(n: u64) -> (r: u16)
    requires
        n < 0x1_0000_0000,
    ensures
        r == fold16(n as nat),
{
    proof {
        lemma_fold16_bound(n as nat);
    }
    let f1 = n % 0x10000 + n / 0x10000;
    let f2 = f1 % 0x10000 + f1 / 0x10000;
    f2 as u16
}

pub fn ip_header_sum_exec(ip: &IpHeader) -> (r: u64)
    ensures
        r == ip_header_sum(*ip),
        r < 0x20_0000,
{
    (ip.version as u64 * 16 + ip.ihl as u64) * 256 + ip.tos as u64 + ip.length as u64 + ip.id as u64
        + ip.flags_to_frag_offset as u64 + ip.ttl as u64 * 256 + ip.protocol as u64 + ip.src as u64
        / 0x10000 + ip.src as u64 % 0x10000 + ip.dst as u64 / 0x10000 + ip.dst as u64 % 0x10000
}

pub fn pseudo_header_sum_exec(ip: &IpHeader, tcp_len: u16) -> (r: u64)
    ensures
        r == pseudo_header_sum(*ip, tcp_len as nat),
        r < 0x8_0000,
{
    ip.src as u64 / 0x10000 + ip.src as u64 % 0x10000 + ip.dst as u64 / 0x10000 + ip.dst as u64
        % 0x10000 + ip.protocol as u64 + tcp_len as u64
}

pub fn tcp_header_sum_exec(t: &TcpHeader) -> (r: u64)
    ensures
        r == tcp_header_sum(*t),
        r < 0x20_0000,
{
    let fb = flags_byte_exec(&t.flags);
    t.src_port as u64 + t.dst_port as u64 + t.seq as u64 / 0x10000 + t.seq as u64 % 0x10000 + t.ack as u64
        / 0x10000 + t.ack as u64 % 0x10000 + t.data_offset as u64 * 4096 + fb + t.window as u64
        + t.urgent as u64
}

fn flag_value_exec(set: bool, v: u64) -> (r: u64)
    ensures
        r == flag_value(set, v as nat),
{
    if set {
        v
    } else {
        0
    }
}

pub fn flags_byte_exec(f: &TcpFlags) -> (r: u64)
    ensures
        r == flags_byte(*f),
        r <= 255,
{
    flag_value_exec(f.cwr, 128) + flag_value_exec(f.ece, 64) + flag_value_exec(f.urg, 32)
        + flag_value_exec(f.ack, 16) + flag_value_exec(f.psh, 8) + flag_value_exec(f.rst, 4)
        + flag_value_exec(f.syn, 2) + flag_value_exec(f.fin, 1)
}

} // verus!
