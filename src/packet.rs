//! Ethernet / IPv4 / TCP frame model and the header mutations the pipeline
//! applies to frames before sending them back out.
use vstd::prelude::*;
use crate::checksum::{
    byte_sum, complement16, fold, fold16, ip_checksum, lemma_fold16_bound,
    pseudo_header_sum, tcp_header_sum, sum_bytes, ip_header_sum_exec, pseudo_header_sum_exec,
    tcp_header_sum_exec,
};

verus! {

/// EtherType of IPv4.
pub const ETYPE_IPV4: u16 = 0x0800;

/// Frames below this size (in bytes, without FCS) are padded before transmission.
pub const MIN_FRAME_SIZE: usize = 60;

/// Length of the Ethernet header plus the fixed IPv4 and TCP headers.
pub const FIXED_HEADERS_LEN: usize = 54;

/// The advertised receive window (four segments of 1460 bytes).
pub const WINDOW_SIZE: u16 = 5840;

/// A 48-bit MAC address, most significant byte first (the byte sent first).
pub type MacAddr = u64;

pub const BROADCAST_MAC: MacAddr = 0xffff_ffff_ffff;

pub open spec fn is_multicast_spec(m: MacAddr) -> bool {
    (m / 0x100_0000_0000) % 2 == 1
}

/// True when the group bit (lowest bit of the first byte) is set.
pub fn is_multicast(m: MacAddr) -> (r: bool)
    ensures
        r == is_multicast_spec(m),
{
    (m / 0x100_0000_0000) % 2 == 1
}

/// A layer 2 to 4 identity: MAC address, IPv4 address and TCP port.
#[derive(Clone, Copy, Debug, PartialEq, Eq, Structural)]
pub struct L234Data {
    pub mac: MacAddr,
    pub ip: u32,
    pub port: u16,
}

#[derive(Clone, Copy, Debug, PartialEq, Eq, Structural)]
pub struct MacHeader {
    pub dst: MacAddr,
    pub src: MacAddr,
    pub etype: u16,
}

#[derive(Clone, Copy, Debug, PartialEq, Eq, Structural)]
pub struct IpHeader {
    pub version: u8,
    /// Header length in 32-bit words.
    pub ihl: u8,
    pub tos: u8,
    /// Total length of the datagram in bytes.
    pub length: u16,
    pub id: u16,
    pub flags_to_frag_offset: u16,
    pub ttl: u8,
    pub protocol: u8,
    pub csum: u16,
    pub src: u32,
    pub dst: u32,
}

#[derive(Clone, Copy, Debug, PartialEq, Eq, Structural)]
pub struct TcpFlags {
    pub cwr: bool,
    pub ece: bool,
    pub urg: bool,
    pub ack: bool,
    pub psh: bool,
    pub rst: bool,
    pub syn: bool,
    pub fin: bool,
}

#[derive(Clone, Copy, Debug, PartialEq, Eq, Structural)]
pub struct TcpHeader {
    pub src_port: u16,
    pub dst_port: u16,
    pub seq: u32,
    pub ack: u32,
    /// Header length in 32-bit words.
    pub data_offset: u8,
    pub flags: TcpFlags,
    pub window: u16,
    pub csum: u16,
    pub urgent: u16,
}

/// Offload requests that travel with a frame to the NIC.
#[derive(Clone, Copy, Debug, PartialEq, Eq, Structural)]
pub struct TxOffload {
    /// The NIC completes the IPv4 and TCP checksums.
    pub tcp_ipv4_csum: bool,
    pub l2_len: u64,
    pub l3_len: u64,
    pub l4_len: u64,
}

/// A frame as held in a packet buffer: the three fixed headers, and `tail`,
/// every byte of the buffer behind the fixed 20-byte TCP header (TCP options,
/// payload and any padding).
#[derive(Clone, Debug)]
pub struct Packet {
    pub mac: MacHeader,
    pub ip: IpHeader,
    pub tcp: TcpHeader,
    pub tail: Vec<u8>,
    pub offload: TxOffload,
}

pub struct PacketView {
    pub mac: MacHeader,
    pub ip: IpHeader,
    pub tcp: TcpHeader,
    pub tail: Seq<u8>,
    pub offload: TxOffload,
}

impl View for Packet {
    type V = PacketView;

    open spec fn view(&self) -> PacketView {
        PacketView { mac: self.mac, ip: self.ip, tcp: self.tcp, tail: self.tail@, offload: self.offload }
    }
}

impl PacketView {
    /// Bytes of TCP options.
    pub open spec fn options_len(self) -> int {
        self.tcp.data_offset * 4 - 20
    }

    /// Bytes of TCP payload, as the IPv4 total length tells.
    pub open spec fn payload_len(self) -> int {
        self.ip.length - self.tcp.data_offset * 4 - self.ip.ihl * 4
    }

    pub open spec fn payload(self) -> Seq<u8> {
        self.tail.subrange(self.options_len(), self.options_len() + self.payload_len())
    }

    /// Length of the whole frame in the buffer.
    pub open spec fn data_len(self) -> int {
        FIXED_HEADERS_LEN + self.tail.len()
    }

    /// The headers are consistent with each other and with the buffer: no IPv4
    /// options, a TCP header of at least 20 bytes, and every byte that the IPv4
    /// total length counts is in the buffer.
    pub open spec fn wf(self) -> bool {
        &&& self.ip.ihl == 5
        &&& 5 <= self.tcp.data_offset <= 15
        &&& self.ip.length >= 20 + self.tcp.data_offset * 4
        &&& 40 + self.tail.len() >= self.ip.length
        &&& self.tail.len() <= 0xffff
    }

    /// Bytes of the TCP segment, header included.
    pub open spec fn tcp_len(self) -> int {
        self.ip.length - self.ip.ihl * 4
    }

    /// The TCP checksum over pseudo header, TCP header, options and payload.
    pub open spec fn tcp_checksum(self) -> u16 {
        complement16(
            pseudo_header_sum(self.ip, self.tcp_len() as nat) + tcp_header_sum(self.tcp) + byte_sum(
                self.tail.subrange(0, self.tcp_len() - 20),
            ),
        )
    }

    /// The frame made ready for the NIC: with checksum offload the IPv4
    /// checksum is zeroed, the TCP checksum holds the folded pseudo-header sum
    /// and the header lengths are set; otherwise both checksums are computed.
    #[verifier::opaque]
    pub open spec fn with_checksums(self) -> PacketView {
        if self.offload.tcp_ipv4_csum {
            PacketView {
                ip: IpHeader { csum: 0, ..self.ip },
                tcp: TcpHeader {
                    csum: fold16(pseudo_header_sum(self.ip, self.tcp_len() as nat)) as u16,
                    ..self.tcp
                },
                offload: TxOffload { l2_len: 14, l3_len: 20, l4_len: 20, ..self.offload },
                ..self
            }
        } else {
            PacketView {
                ip: IpHeader { csum: ip_checksum(self.ip), ..self.ip },
                tcp: TcpHeader { csum: self.tcp_checksum(), ..self.tcp },
                ..self
            }
        }
    }

    /// Decrements the time-to-live unless it is zero, and renews the IPv4
    /// checksum unless the NIC computes it.
    pub open spec fn with_ttl_done(self) -> PacketView {
        let d = self.with_ttl_decremented();
        if self.offload.tcp_ipv4_csum {
            d
        } else {
            PacketView { ip: IpHeader { csum: ip_checksum(d.ip), ..d.ip }, ..d }
        }
    }

    /// Addressed from `me` (source port `port`) to `server`, as IPv4.
    pub open spec fn with_header(self, server: L234Data, port: u16, me: L234Data) -> PacketView {
        PacketView {
            mac: MacHeader { dst: server.mac, src: me.mac, ..self.mac },
            ip: IpHeader { dst: server.ip, src: me.ip, ..self.ip },
            tcp: TcpHeader { dst_port: server.port, src_port: port, ..self.tcp },
            ..self
        }
    }

    /// The zero bytes that bring a frame of `len` bytes up to the minimum size.
    pub open spec fn padding(len: int) -> Seq<u8> {
        if len < MIN_FRAME_SIZE {
            Seq::new((MIN_FRAME_SIZE - len) as nat, |i: int| 0u8)
        } else {
            Seq::empty()
        }
    }

    /// A data segment from `me` to `server` carrying `payload`: the buffer
    /// and the IPv4 length grow by the payload (see `extended_tail`), the
    /// sequence and acknowledgement numbers are `seq` and `ack`, flags PSH
    /// and ACK (SYN cleared), and the frame is padded to the minimum frame
    /// size; checksums not yet done.
    pub open spec fn with_payload(
        self,
        server: L234Data,
        port: u16,
        me: L234Data,
        payload: Seq<u8>,
        seq: u32,
        ack: u32,
    ) -> PacketView {
        let h = self.with_header(server, port, me);
        let body = self.extended_tail(payload);
        PacketView {
            mac: MacHeader { etype: ETYPE_IPV4, ..h.mac },
            ip: IpHeader { length: (self.ip.length + payload.len()) as u16, ..h.ip },
            tcp: TcpHeader {
                seq,
                ack,
                window: WINDOW_SIZE,
                flags: TcpFlags { syn: false, ack: true, psh: true, ..h.tcp.flags },
                ..h.tcp
            },
            tail: body + Self::padding(FIXED_HEADERS_LEN + body.len()),
            ..h
        }
    }

    /// The buffer extended by `payload.len()` zero bytes, with `payload`
    /// copied to where the TCP payload starts.
    pub open spec fn extended_tail(self, payload: Seq<u8>) -> Seq<u8> {
        let o = self.options_len();
        Seq::new(
            (self.tail.len() + payload.len()) as nat,
            |k: int|
                if o <= k < o + payload.len() {
                    payload[k - o]
                } else if k < self.tail.len() {
                    self.tail[k]
                } else {
                    0u8
                },
        )
    }

    pub open spec fn with_ttl_decremented(self) -> PacketView {
        if self.ip.ttl >= 1 {
            PacketView { ip: IpHeader { ttl: (self.ip.ttl - 1) as u8, ..self.ip }, ..self }
        } else {
            self
        }
    }

    /// Endpoints swapped, ACK set, acknowledging everything of this segment
    /// plus `inc` (one for a SYN or FIN).
    pub open spec fn reply(self, inc: u32) -> PacketView {
        PacketView {
            mac: MacHeader { src: self.mac.dst, dst: self.mac.src, ..self.mac },
            ip: IpHeader { src: self.ip.dst, dst: self.ip.src, ..self.ip },
            tcp: TcpHeader {
                src_port: self.tcp.dst_port,
                dst_port: self.tcp.src_port,
                flags: TcpFlags { ack: true, ..self.tcp.flags },
                ack: ((self.tcp.seq + self.payload_len() + inc) % 0x1_0000_0000) as u32,
                ..self.tcp
            },
            ..self
        }
    }

    pub open spec fn without_options(self) -> PacketView {
        if self.tcp.data_offset > 5 {
            PacketView {
                ip: IpHeader { length: (self.ip.length - self.options_len()) as u16, ..self.ip },
                tcp: TcpHeader { data_offset: 5, ..self.tcp },
                tail: self.tail.subrange(0, self.tail.len() - self.options_len()),
                ..self
            }
        } else {
            self
        }
    }

    pub open spec fn without_payload(self) -> PacketView {
        PacketView {
            ip: IpHeader { length: (self.ip.length - self.payload_len()) as u16, ..self.ip },
            tail: self.tail.subrange(0, self.tail.len() - self.payload_len()),
            ..self
        }
    }
}

/// Preparing the checksums touches nothing but the checksum fields and the
/// offload lengths.
pub broadcast proof fn lemma_checksums_keep(v: PacketView)
    ensures
        (#[trigger] v.with_checksums()).mac == v.mac,
        v.with_checksums().tail == v.tail,
        v.with_checksums().ip == (IpHeader { csum: v.with_checksums().ip.csum, ..v.ip }),
        v.with_checksums().tcp == (TcpHeader { csum: v.with_checksums().tcp.csum, ..v.tcp }),
        v.with_checksums().offload.tcp_ipv4_csum == v.offload.tcp_ipv4_csum,
        v.with_checksums().wf() == v.wf(),
        v.with_checksums().payload_len() == v.payload_len(),
        v.with_checksums().payload() == v.payload(),
{
    reveal(PacketView::with_checksums);
}

impl Packet {
    /// Bytes of TCP payload.
    pub fn tcp_payload_len(&self) -> (r: usize)
        requires
            self@.wf(),
        ensures
            r == self@.payload_len(),
    {
        self.ip.length as usize - self.tcp.data_offset as usize * 4 - self.ip.ihl as usize * 4
    }

    /// Length of the whole frame in the buffer.
    pub fn data_len(&self) -> (r: usize)
        requires
            self@.wf(),
        ensures
            r == self@.data_len(),
    {
        FIXED_HEADERS_LEN + self.tail.len()
    }

    /// Writes the IPv4 header checksum.
    pub fn update_ip_checksum(&mut self)
        ensures
            final(self)@ == (PacketView { ip: IpHeader { csum: ip_checksum(old(self).ip), ..old(self).ip }, ..old(self)@ }),
    {
        let sum = ip_header_sum_exec(&self.ip);
        proof {
            lemma_fold16_bound(sum as nat);
        }
        self.ip.csum = 0xffff - fold(sum);
    }

    /// Decrements the IPv4 time-to-live unless it is already zero, and
    /// renews the header checksum unless the NIC does.
    pub fn do_ttl(&mut self)
        ensures
            final(self)@ == old(self)@.with_ttl_done(),
    {
        if self.ip.ttl >= 1 {
            self.ip.ttl = self.ip.ttl - 1;
        }
        if !self.offload.tcp_ipv4_csum {
            self.update_ip_checksum();
        }
    }

    /// Fills in the checksums, or prepares the NIC to do so; see
    /// `PacketView::with_checksums`.
    pub fn prepare_checksum(&mut self)
        requires
            old(self)@.wf(),
        ensures
            final(self)@ == old(self)@.with_checksums(),
            final(self)@.wf() == old(self)@.wf(),
            final(self)@.payload() == old(self)@.payload(),
            final(self)@.data_len() == old(self)@.data_len(),
            final(self)@.payload_len() == old(self)@.payload_len(),
            final(self).mac == old(self).mac,
            final(self).ip == (IpHeader { csum: final(self).ip.csum, ..old(self).ip }),
            final(self).tcp == (TcpHeader { csum: final(self).tcp.csum, ..old(self).tcp }),
    {
        reveal(PacketView::with_checksums);
        let tcp_len: u16 = self.ip.length - self.ip.ihl as u16 * 4;
        if self.offload.tcp_ipv4_csum {
            self.ip.csum = 0;
            let psum = pseudo_header_sum_exec(&self.ip, tcp_len);
            self.tcp.csum = fold(psum);
            self.offload.l2_len = 14;
            self.offload.l3_len = 20;
            self.offload.l4_len = 20;
        } else {
            self.update_ip_checksum();
            let psum = pseudo_header_sum_exec(&self.ip, tcp_len);
            let hsum = tcp_header_sum_exec(&self.tcp);
            let bsum = sum_bytes(&self.tail, (tcp_len - 20) as usize);
            let total = psum + hsum + bsum;
            proof {
                lemma_fold16_bound(total as nat);
            }
            self.tcp.csum = 0xffff - fold(total);
        }
    }

    /// Addresses the frame from `me` (source port `port`) to `server`.
    pub fn set_header(&mut self, server: &L234Data, port: u16, me: &L234Data)
        ensures
            final(self)@ == old(self)@.with_header(*server, port, *me),
    {
        self.mac.dst = server.mac;
        self.mac.src = me.mac;
        self.ip.dst = server.ip;
        self.tcp.dst_port = server.port;
        self.ip.src = me.ip;
        self.tcp.src_port = port;
    }

    /// The buffer extended by the payload (see `PacketView::extended_tail`),
    /// padded with zeros to the minimum frame size.
    fn payload_body(&self, payload: &Vec<u8>) -> (r: Vec<u8>)
        requires
            self@.wf(),
            self@.tail.len() + payload@.len() + MIN_FRAME_SIZE <= 0xffff,
        ensures
            r@ == self@.extended_tail(payload@) + PacketView::padding(
                FIXED_HEADERS_LEN + self@.tail.len() + payload@.len(),
            ),
    {
        let o: usize = self.tcp.data_offset as usize * 4 - 20;
        let n: usize = self.tail.len() + payload.len();
        let ghost ext = self@.extended_tail(payload@);
        let mut body: Vec<u8> = Vec::new();
        let mut k: usize = 0;
        while k < n
            invariant
                k <= n,
                n == ext.len(),
                payload@.len() <= 0xffff,
                o <= 40,
                o == self@.options_len(),
                ext == self@.extended_tail(payload@),
                body@ == ext.subrange(0, k as int),
            decreases n - k,
        {
            let b: u8 = if o <= k && k < o + payload.len() {
                payload[k - o]
            } else if k < self.tail.len() {
                self.tail[k]
            } else {
                0u8
            };
            body.push(b);
            k = k + 1;
            assert(body@ =~= ext.subrange(0, k as int));
        }
        assert(body@ =~= ext);
        if FIXED_HEADERS_LEN + n < MIN_FRAME_SIZE {
            let n_padding_bytes = MIN_FRAME_SIZE - (FIXED_HEADERS_LEN + n);
            let mut i: usize = 0;
            while i < n_padding_bytes
                invariant
                    i <= n_padding_bytes,
                    body@ == ext + Seq::new(i as nat, |j: int| 0u8),
                decreases n_padding_bytes - i,
            {
                body.push(0u8);
                i = i + 1;
                assert(body@ =~= ext + Seq::new(i as nat, |j: int| 0u8));
            }
            assert(body@ =~= ext + PacketView::padding(FIXED_HEADERS_LEN + n));
        } else {
            assert(body@ =~= ext + PacketView::padding(FIXED_HEADERS_LEN + n));
        }
        body
    }

    /// Turns the frame into a data segment to `server`: the buffer grows by
    /// the payload, which is copied behind the TCP header, and is padded to
    /// the minimum frame size; the checksums are prepared. See
    /// `PacketView::with_payload`.
    pub fn make_payload_packet(
        &mut self,
        server: &L234Data,
        port: u16,
        me: &L234Data,
        payload: &Vec<u8>,
        seq: u32,
        ack: u32,
    )
        requires
            old(self)@.wf(),
            old(self).ip.length + payload@.len() <= 0xffff,
            old(self)@.tail.len() + payload@.len() + MIN_FRAME_SIZE <= 0xffff,
        ensures
            final(self)@ == old(self)@.with_payload(*server, port, *me, payload@, seq, ack).with_checksums(),
            final(self)@.wf(),
            final(self).ip.length == old(self).ip.length + payload@.len(),
            old(self)@.payload_len() == 0 ==> final(self)@.payload() == payload@,
            final(self)@.data_len() == (if old(self)@.data_len() + payload@.len() < MIN_FRAME_SIZE {
                MIN_FRAME_SIZE as int
            } else {
                old(self)@.data_len() + payload@.len()
            }),
    {
        let ghost pre = self@;
        self.mac.etype = ETYPE_IPV4;
        self.set_header(server, port, me);
        let body = self.payload_body(payload);
        self.tail = body;
        self.ip.length = self.ip.length + payload.len() as u16;
        self.tcp.seq = seq;
        self.tcp.flags.syn = false;
        self.tcp.window = WINDOW_SIZE;
        self.tcp.ack = ack;
        self.tcp.flags.ack = true;
        self.tcp.flags.psh = true;
        assert(self@ == pre.with_payload(*server, port, *me, payload@, seq, ack));
        assert(pre.payload_len() == 0 ==> self@.payload() =~= payload@);
        self.prepare_checksum();
    }

    /// Turns the frame around into a reply to its sender; see `PacketView::reply`.
    pub fn make_reply_packet(&mut self, inc: u32)
        requires
            old(self)@.wf(),
        ensures
            final(self)@ == old(self)@.reply(inc),
            final(self)@.wf(),
    {
        let ghost seq = self.tcp.seq;
        let ghost pl = self@.payload_len();
        let smac = self.mac.src;
        let dmac = self.mac.dst;
        let sip = self.ip.src;
        let dip = self.ip.dst;
        let sport = self.tcp.src_port;
        let dport = self.tcp.dst_port;
        self.mac.src = dmac;
        self.mac.dst = smac;
        self.ip.dst = sip;
        self.ip.src = dip;
        self.tcp.src_port = dport;
        self.tcp.dst_port = sport;
        self.tcp.flags.ack = true;
        let len = self.tcp_payload_len() as u32;
        self.tcp.ack = self.tcp.seq.wrapping_add(len.wrapping_add(inc));
        assert(self.tcp.ack == ((seq + pl + inc) % 0x1_0000_0000) as u32);
    }

    /// Drops the TCP options (data offset back to five words) together with
    /// the matching bytes at the end of the buffer. Meant for segments
    /// without payload, whose options are the last bytes of the frame.
    pub fn remove_tcp_options(&mut self)
        requires
            old(self)@.wf(),
        ensures
            final(self)@ == old(self)@.without_options(),
            final(self)@.wf(),
    {
        let old_offset: u16 = self.tcp.data_offset as u16 * 4;
        if old_offset > 20 {
            let trim_by: u16 = old_offset - 20;
            self.tcp.data_offset = 5;
            self.ip.length = self.ip.length - trim_by;
            let new_len = self.tail.len() - trim_by as usize;
            self.tail.truncate(new_len);
            assert(self.tail@ =~= old(self)@.tail.subrange(0, new_len as int));
        }
    }

    /// Removes the TCP payload: the IPv4 length shrinks by its size, and as
    /// many bytes are cut from the end of the buffer.
    pub fn strip_payload(&mut self)
        requires
            old(self)@.wf(),
        ensures
            final(self)@ == old(self)@.without_payload(),
            final(self)@.wf(),
            final(self)@.payload_len() == 0,
    {
        let payload_len = self.tcp_payload_len();
        self.ip.length = self.ip.length - payload_len as u16;
        let new_len = self.tail.len() - payload_len;
        self.tail.truncate(new_len);
        assert(self.tail@ =~= old(self)@.tail.subrange(0, new_len as int));
    }

    /// A copy of the TCP payload bytes.
    pub fn payload_bytes(&self) -> (r: Vec<u8>)
        requires
            self@.wf(),
        ensures
            r@ == self@.payload(),
    {
        let start = self.tcp.data_offset as usize * 4 - 20;
        let len = self.tcp_payload_len();
        let mut r: Vec<u8> = Vec::new();
        let mut i: usize = 0;
        while i < len
            invariant
                i <= len,
                len == self@.payload_len(),
                start == self@.options_len(),
                start + len <= self@.tail.len(),
                r@ == self@.tail.subrange(start as int, start + i),
            decreases len - i,
        {
            r.push(self.tail[start + i]);
            i = i + 1;
            assert(r@ =~= self@.tail.subrange(start as int, start + i));
        }
        r
    }
}

} // verus!
