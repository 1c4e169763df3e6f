//! One pipeline: classifies each frame of the merged input (injector
//! frames, timer ticks, wire frames), runs the state machines and decides
//! where the frame goes.
use vstd::prelude::*;
use crate::cdata::{CData, new_uuid};
use crate::cmanager::{
    ConnectionManagerC, ConnectionManagerS, fresh_listen, records_appended, sock_key, sock_key_spec,
};
use crate::machine::{
    GROUP_DROP, GROUP_KNI, GROUP_NIC, SegmentOutcome, client_segment, client_step, server_segment,
    server_segment_step,
};
use crate::connection::{Connection, add32, isn, syn_of};
use crate::packet::{
    BROADCAST_MAC, ETYPE_IPV4, L234Data, MIN_FRAME_SIZE, Packet, PacketView, TxOffload, is_multicast,
    is_multicast_spec,
};
use crate::tcp_common::{ConRecord, TcpCounter, TcpRole, TcpState, TcpStatistics};
use crate::timer_wheel::TimerWheel;
use crate::wire::{be48, frame_bytes, parsed};

verus! {

broadcast use crate::packet::lemma_checksums_keep;

/// EtherType of the frames the injectors generate.
pub const PRIVATE_ETYPE_PACKET: u16 = 0x08FF;

/// EtherType of the timer tick frames.
pub const PRIVATE_ETYPE_TIMER: u16 = 0x08FE;

/// Destination port that marks a frame of the SYN injector.
pub const SYN_INJECTOR_PORT: u16 = 1;

/// Destination port that marks a frame of the payload injector.
pub const PAYLOAD_INJECTOR_PORT: u16 = 2;

pub const IP_PROTOCOL_TCP: u8 = 6;

/// Slots of each timer wheel.
pub const WHEEL_SLOTS: usize = 128;

/// Where a frame goes, and whether the control channel is due for a poll.
#[derive(Clone, Copy, Debug, PartialEq, Eq, Structural)]
pub struct Verdict {
    pub group: usize,
    pub poll_control: bool,
}

/// The state of one pipeline.
pub struct Pipeline {
    /// Our identity; its port is the listen port.
    pub me: L234Data,
    /// The address the flow steering gives this pipeline.
    pub pipeline_ip: u32,
    /// The servers that SYNs go to, in turn.
    pub servers: Vec<L234Data>,
    /// How many client connections this pipeline opens.
    pub nr_connections: usize,
    pub rxq: u16,
    pub csum_offload: bool,
    /// Cycles a connection may take to become established.
    pub established_timeout: u64,
    /// Ticks between two timer wheel checks.
    pub wheel_tick_reduction_factor: u64,
    pub ticks: u64,
    pub cm_c: ConnectionManagerC,
    pub cm_s: ConnectionManagerS,
    pub wheel_c: TimerWheel<u16>,
    pub wheel_s: TimerWheel<u64>,
    /// Events of our client connections.
    pub counter_to: TcpCounter,
    /// Events of the connections the peer opened.
    pub counter_from: TcpCounter,
    pub syn_injector_ready: bool,
    pub payload_injector_ready: bool,
}

/// The longest encoded payload.
pub const MAX_PAYLOAD_LEN: usize = 33;

/// The frame has room for a payload of up to `MAX_PAYLOAD_LEN` bytes.
pub open spec fn payload_room(v: PacketView) -> bool {
    &&& v.ip.length + MAX_PAYLOAD_LEN <= 0xffff
    &&& v.tail.len() + MAX_PAYLOAD_LEN + MIN_FRAME_SIZE <= 0xffff
}

/// `v` marked for checksum offload when `offload` is set.
pub open spec fn with_offload(v: PacketView, offload: bool) -> PacketView {
    if offload {
        PacketView { offload: TxOffload { tcp_ipv4_csum: true, ..v.offload }, ..v }
    } else {
        v
    }
}

/// The frame is one of ours: from an injector or the tick generator.
pub open spec fn is_private(v: PacketView) -> bool {
    v.mac.etype == PRIVATE_ETYPE_PACKET || v.mac.etype == PRIVATE_ETYPE_TIMER
}

impl Pipeline {
    pub open spec fn inv(&self) -> bool {
        &&& self.cm_c.wf()
        &&& self.cm_s.wf()
        &&& self.wheel_c.wf()
        &&& self.wheel_s.wf()
        &&& self.counter_to.wf()
        &&& self.counter_from.wf()
        &&& self.servers@.len() > 0
        &&& self.wheel_tick_reduction_factor > 0
        &&& self.cm_c.spec_special_port() == self.me.port
        &&& self.counter_to.spec_get(TcpStatistics::SentSyn) <= self.nr_connections
        &&& self.counter_to.spec_get(TcpStatistics::SentSyn) == self.nr_connections ==> !self.syn_injector_ready
        &&& self.payload_injector_ready == (self.cm_c.ready_queue().len() > 0)
        &&& forall|q: u16|
            #[trigger] self.cm_c.con(q).is_some() ==> self.cm_c.con(q).unwrap().con_rec.server_index
                < self.servers@.len()
    }

    /// How a wire frame fares before any state is looked at: `Some(group)`
    /// when it is dropped (foreign MAC) or handed to the kernel (not IPv4,
    /// not TCP, not to us, or a port that is neither the listen port nor ours).
    pub open spec fn prefilter_spec(&self, v: PacketView) -> Option<usize> {
        if is_private(v) {
            None
        } else if v.mac.dst != self.me.mac && !is_multicast_spec(v.mac.dst) && v.mac.dst != BROADCAST_MAC {
            Some(GROUP_DROP)
        } else if v.mac.etype != ETYPE_IPV4 {
            Some(GROUP_KNI)
        } else if v.ip.protocol != IP_PROTOCOL_TCP || (v.ip.dst != self.pipeline_ip && v.ip.dst != self.me.ip) {
            Some(GROUP_KNI)
        } else if v.tcp.dst_port != self.me.port && !self.cm_c.owns(v.tcp.dst_port) {
            Some(GROUP_KNI)
        } else {
            None
        }
    }

    /// A pipeline with no connection yet. `cpu_clock` is cycles per second;
    /// the wheels advance in tenths of a second and are checked every
    /// `cpu_clock / 10 / tick_length` ticks.
    pub fn new(
        me: L234Data,
        pipeline_ip: u32,
        servers: Vec<L234Data>,
        nr_connections: usize,
        tcp_port_base: u16,
        n_ports: u16,
        rxq: u16,
        csum_offload: bool,
        cpu_clock: u64,
        established_timeout_ms: u64,
        tick_length: u64,
        now: u64,
    ) -> (r: Pipeline)
        requires
            servers@.len() > 0,
            tcp_port_base + n_ports <= 0x10000,
            0 < tick_length < cpu_clock / 10,
        ensures
            r.inv(),
            r.me == me,
            r.pipeline_ip == pipeline_ip,
            r.servers@ == servers@,
            r.nr_connections == nr_connections,
            r.syn_injector_ready == (nr_connections > 0),
            !r.payload_injector_ready,
            r.counter_to.spec_get(TcpStatistics::SentSyn) == 0,
            forall|q: u16| r.cm_c.owns(q) <==> tcp_port_base <= q < tcp_port_base + n_ports,
    {
        let resolution = cpu_clock / 10;
        let a: u128 = established_timeout_ms as u128;
        let b: u128 = cpu_clock as u128;
        assert(a * b <= 0xffff_ffff_ffff_ffff * 0xffff_ffff_ffff_ffffu128) by (nonlinear_arith)
            requires
                a <= 0xffff_ffff_ffff_ffff,
                b <= 0xffff_ffff_ffff_ffff,
        ;
        let t: u128 = a * b / 1000;
        let factor = resolution / tick_length;
        assert(factor > 0) by (nonlinear_arith)
            requires
                factor == resolution / tick_length,
                0 < tick_length < resolution,
        ;
        let established_timeout: u64 = if t > u64::MAX as u128 {
            u64::MAX
        } else {
            t as u64
        };
        let cm_c = ConnectionManagerC::new(pipeline_ip, me.port, tcp_port_base, n_ports);
        let counter_to = TcpCounter::new();
        let r = Pipeline {
            me,
            pipeline_ip,
            servers,
            nr_connections,
            rxq,
            csum_offload,
            established_timeout,
            wheel_tick_reduction_factor: factor,
            ticks: 0,
            cm_c,
            cm_s: ConnectionManagerS::new(),
            wheel_c: TimerWheel::new(WHEEL_SLOTS, resolution, now),
            wheel_s: TimerWheel::new(WHEEL_SLOTS, resolution, now),
            counter_to,
            counter_from: TcpCounter::new(),
            syn_injector_ready: nr_connections > 0,
            payload_injector_ready: false,
        };
        assert forall|q: u16| #[trigger] r.cm_c.con(q).is_some() implies r.cm_c.con(q).unwrap().con_rec.server_index
            < r.servers@.len() by {
            assert(r.cm_c.con(q).is_none());
        }
        r
    }

    /// The prefilter of wire frames; see `prefilter_spec`.
    pub fn prefilter(&self, p: &Packet) -> (r: Option<usize>)
        ensures
            r == self.prefilter_spec(p@),
    {
        if p.mac.etype == PRIVATE_ETYPE_PACKET || p.mac.etype == PRIVATE_ETYPE_TIMER {
            return None;
        }
        if p.mac.dst != self.me.mac && !is_multicast(p.mac.dst) && p.mac.dst != BROADCAST_MAC {
            return Some(GROUP_DROP);
        }
        if p.mac.etype != ETYPE_IPV4 {
            return Some(GROUP_KNI);
        }
        if p.ip.protocol != IP_PROTOCOL_TCP || (p.ip.dst != self.pipeline_ip && p.ip.dst != self.me.ip) {
            return Some(GROUP_KNI);
        }
        if p.tcp.dst_port != self.me.port && !self.cm_c.owns_tcp_port(p.tcp.dst_port) {
            return Some(GROUP_KNI);
        }
        None
    }

    /// What a SYN injector frame does: `s0` and frame `p0` become `s1` and
    /// `p1`, and the frame goes to group `r`.
    pub open spec fn syn_step(s0: Pipeline, p0: PacketView, now: u64, s1: Pipeline, p1: PacketView, r: usize) -> bool {
        &&& s1.inv()
        &&& p1.wf()
        &&& r == GROUP_DROP || r == GROUP_NIC
        &&& r == GROUP_NIC <==> s0.counter_to.spec_get(TcpStatistics::SentSyn) < s0.nr_connections
            && s0.cm_c.n_free() > 0
        &&& r == GROUP_NIC ==> exists|port: u16| {
            let sent = s0.counter_to.spec_get(TcpStatistics::SentSyn);
            let idx = sent % (s0.servers@.len() as u64);
            let c = s1.cm_c.con(port).unwrap();
            &&& #[trigger] s0.cm_c.is_free(port)
            &&& s0.cm_c.con(port).is_none()
            &&& s1.cm_c.con(port).is_some()
            &&& c.port == port
            &&& c.role == TcpRole::Client
            &&& c.con_rec.states@ == seq![TcpState::SynSent]
            &&& c.con_rec.server_index == idx
            &&& c.seqn_nxt == add32(isn(now), 1)
            &&& c.con_rec.uuid.is_some()
            &&& p1 == syn_of(p0, s0.servers@[idx as int], port, s0.me, isn(now)).with_checksums()
            &&& TcpCounter::bumped(s0.counter_to, s1.counter_to, TcpStatistics::SentSyn)
            &&& s1.wheel_c.ring() == s0.wheel_c.ring().update(
                s0.wheel_c.slot_for(s0.established_timeout, now) % s0.wheel_c.ring().len() as int,
                s0.wheel_c.ring()[s0.wheel_c.slot_for(s0.established_timeout, now)
                    % s0.wheel_c.ring().len() as int].push(port),
            )
            &&& forall|q: u16| q != port ==> #[trigger] s1.cm_c.con(q) == s0.cm_c.con(q)
        }
        &&& r == GROUP_DROP ==> s1.counter_to == s0.counter_to && p1 == p0
            && forall|q: u16| #[trigger] s1.cm_c.con(q) == s0.cm_c.con(q)
        &&& s0.counter_to.spec_get(TcpStatistics::SentSyn) >= s0.nr_connections ==> !s1.syn_injector_ready
        &&& s1.cm_c.ready_queue() == s0.cm_c.ready_queue()
        &&& s1.cm_c.records() == s0.cm_c.records()
        &&& s1.nr_connections == s0.nr_connections
        &&& s1.me == s0.me
        &&& s1.servers@ == s0.servers@
        &&& s1.pipeline_ip == s0.pipeline_ip
        &&& s1.cm_c.same_frame(&s0.cm_c)
    }

    /// A frame of the SYN injector: while fewer than `nr_connections` SYNs
    /// went out, it becomes the SYN of a new client connection, whose
    /// establishment timeout goes into the client wheel; once the quota is
    /// reached the injector is stopped.
    pub fn inject_syn(&mut self, p: &mut Packet, now: u64) -> (r: usize)
        requires
            old(self).inv(),
            old(p)@.wf(),
        ensures
            Pipeline::syn_step(*old(self), old(p)@, now, *final(self), final(p)@, r),
    {
        if self.counter_to.get(TcpStatistics::SentSyn) < self.nr_connections as u64 {
            let uuid = new_uuid();
            match self.cm_c.create(uuid) {
                Some(port) => {
                    match self.cm_c.take(port) {
                        Some(mut c) => {
                            c.generate_syn(p, &self.me, &self.servers, &mut self.counter_to, now);
                            self.wheel_c.schedule(self.established_timeout, now, port);
                            self.cm_c.put(c);
                            if self.counter_to.get(TcpStatistics::SentSyn) >= self.nr_connections as u64 {
                                self.syn_injector_ready = false;
                            }
                            GROUP_NIC
                        },
                        None => GROUP_DROP,
                    }
                },
                None => GROUP_DROP,
            }
        } else {
            self.syn_injector_ready = false;
            GROUP_DROP
        }
    }

    /// The payload a client connection sends: the pipeline's address and
    /// listen port, the connection's port and uuid.
    pub open spec fn payload_of(&self, c: Connection) -> CData {
        CData { peer_ip: self.cm_c.spec_ip(), peer_port: self.me.port, client_port: c.port, uuid: c.con_rec.uuid }
    }

    /// What a payload injector frame does; see `syn_step`.
    pub open spec fn payload_step(s0: Pipeline, p0: PacketView, s1: Pipeline, p1: PacketView, r: usize) -> bool {
        &&& s1.inv()
        &&& p1.wf()
        &&& r == GROUP_DROP || r == GROUP_NIC
        &&& ({
            let rq = s0.cm_c.ready_queue();
            &&& r == GROUP_NIC <==> payload_room(p0) && exists|j: int| 0 <= j < rq.len() && #[trigger] s0.cm_c.con(rq[j]).is_some()
            &&& r == GROUP_DROP ==> p1 == p0 && s1.counter_to == s0.counter_to
                && forall|q: u16| #[trigger] s1.cm_c.con(q) == s0.cm_c.con(q)
            &&& r == GROUP_DROP && payload_room(p0) ==> s1.cm_c.ready_queue().len() == 0
            &&& !payload_room(p0) ==> s1.cm_c.ready_queue() == rq
            &&& r == GROUP_NIC ==> exists|j: int| {
                let port = rq[j];
                let c = s0.cm_c.con(port).unwrap();
                let d = s0.payload_of(c);
                &&& 0 <= j < rq.len()
                &&& #[trigger] rq.skip(j + 1) == s1.cm_c.ready_queue()
                &&& s0.cm_c.con(port).is_some()
                &&& forall|i: int| 0 <= i < j ==> #[trigger] s0.cm_c.con(rq[i]).is_none()
                &&& s1.cm_c.ready_queue() == rq.skip(j + 1)
                &&& p1 == p0.with_payload(
                    s0.servers@[c.con_rec.server_index as int],
                    c.port,
                    s0.me,
                    d.bytes(),
                    c.seqn_nxt,
                    c.ackn_nxt,
                ).with_checksums()
                &&& s1.cm_c.con(port) == Some(Connection { seqn_nxt: add32(c.seqn_nxt, d.bytes().len() as int), ..c })
                &&& forall|q: u16| q != port ==> #[trigger] s1.cm_c.con(q) == s0.cm_c.con(q)
                &&& TcpCounter::bumped(s0.counter_to, s1.counter_to, TcpStatistics::Payload)
            }
        })
        &&& s1.payload_injector_ready == (s1.cm_c.ready_queue().len() > 0)
        &&& s1.cm_c.records() == s0.cm_c.records()
        &&& s1.nr_connections == s0.nr_connections
        &&& s1.counter_to.spec_get(TcpStatistics::SentSyn) == s0.counter_to.spec_get(TcpStatistics::SentSyn)
        &&& s1.syn_injector_ready == s0.syn_injector_ready
        &&& s1.me == s0.me
        &&& s1.servers@ == s0.servers@
        &&& s1.pipeline_ip == s0.pipeline_ip
        &&& s1.cm_c.same_frame(&s0.cm_c)
    }

    /// A frame of the payload injector: becomes the data segment of the
    /// oldest queued port that still holds a connection, carrying its port
    /// and uuid; ports dequeued on the way had lost their connection. The
    /// injector stops once the ready queue is empty.
    pub fn inject_payload(&mut self, p: &mut Packet) -> (r: usize)
        requires
            old(self).inv(),
            old(p)@.wf(),
        ensures
            Pipeline::payload_step(*old(self), old(p)@, *final(self), final(p)@, r),
    {
        let mut group = GROUP_DROP;
        let ghost rq = self.cm_c.ready_queue();
        if p.ip.length as usize + MAX_PAYLOAD_LEN > 0xffff || p.tail.len() + MAX_PAYLOAD_LEN + MIN_FRAME_SIZE > 0xffff {
            // no room for the payload in this frame
            return GROUP_DROP;
        }
        if let Some(port) = self.cm_c.get_ready_connection() {
            if let Some(mut c) = self.cm_c.take(port) {
                let ghost c0 = c;
                let cdata = CData {
                    peer_ip: self.cm_c.ip(),
                    peer_port: self.cm_c.special_port(),
                    client_port: c.port,
                    uuid: c.con_rec.uuid,
                };
                let payload = cdata.encode();
                p.make_payload_packet(
                    &self.servers[c.con_rec.server_index],
                    c.port,
                    &self.me,
                    &payload,
                    c.seqn_nxt,
                    c.ackn_nxt,
                );
                c.seqn_nxt = c.seqn_nxt.wrapping_add(payload.len() as u32);
                self.counter_to.inc(TcpStatistics::Payload);
                group = GROUP_NIC;
                self.cm_c.put(c);
                proof {
                    let k = choose|k: int|
                        0 <= k <= rq.len() && #[trigger] rq.skip(k) == self.cm_c.ready_queue()
                            && (forall|j: int| 0 <= j < k - 1 ==> old(self).cm_c.con(#[trigger] rq[j]).is_none())
                            && k >= 1 && port == rq[k - 1];
                    assert(old(self).cm_c.con(rq[k - 1]).is_some());
                    assert(cdata == old(self).payload_of(c0));
                    let j = k - 1;
                    assert(rq.skip(j + 1) == self.cm_c.ready_queue());
                    assert(payload@ == old(self).payload_of(c0).bytes());
                    assert(self.cm_c.con(port) == Some(Connection { seqn_nxt: add32(c0.seqn_nxt, payload@.len() as int), ..c0 }));
                    assert(forall|i: int| 0 <= i < j ==> #[trigger] old(self).cm_c.con(rq[i]).is_none());
                }
            }
        } else {
            proof {
                assert forall|j: int| 0 <= j < rq.len() implies !(#[trigger] old(self).cm_c.con(rq[j]).is_some()) by {
                    let k = choose|k: int|
                        0 <= k <= rq.len() && #[trigger] rq.skip(k) == self.cm_c.ready_queue()
                            && (forall|j: int| 0 <= j < k - 1 ==> old(self).cm_c.con(#[trigger] rq[j]).is_none())
                            && k == rq.len() && (k > 0 ==> old(self).cm_c.con(rq[k - 1]).is_none());
                    if j < k - 1 {
                    } else {
                        assert(j == k - 1);
                    }
                }
            }
        }
        self.payload_injector_ready = self.cm_c.ready_connections() > 0;
        group
    }

    /// What a timer tick does to the pipeline state.
    pub open spec fn tick_step(s0: Pipeline, now: u64, s1: Pipeline) -> bool {
        &&& s1.inv()
        &&& s1.ticks == (if s0.ticks < u64::MAX { s0.ticks + 1 } else { 0 })
        &&& s1.ticks % s0.wheel_tick_reduction_factor == 0 ==> {
            &&& exists|toks: Seq<u16>|
                #[trigger] TimerWheel::released(s0.wheel_c, s1.wheel_c, now, toks)
                    && ConnectionManagerC::timeouts_released(s0.cm_c, s1.cm_c, toks)
            &&& exists|toks: Seq<u64>|
                #[trigger] TimerWheel::released(s0.wheel_s, s1.wheel_s, now, toks)
                    && ConnectionManagerS::timeouts_released(s0.cm_s, s1.cm_s, toks)
        }
        &&& s1.ticks % s0.wheel_tick_reduction_factor != 0 ==> s1.cm_c == s0.cm_c
            && s1.cm_s == s0.cm_s && s1.wheel_c == s0.wheel_c
            && s1.wheel_s == s0.wheel_s
        &&& s1.cm_c.ready_queue() == s0.cm_c.ready_queue()
        &&& s1.nr_connections == s0.nr_connections
        &&& s1.counter_to == s0.counter_to
        &&& s1.counter_from == s0.counter_from
        &&& s1.syn_injector_ready == s0.syn_injector_ready
        &&& s1.payload_injector_ready == s0.payload_injector_ready
        &&& s1.me == s0.me
        &&& s1.pipeline_ip == s0.pipeline_ip
        &&& s1.cm_c.same_frame(&s0.cm_c)
    }

    /// A timer tick: every `wheel_tick_reduction_factor` ticks, connections
    /// that did not become established in time are released.
    pub fn on_tick(&mut self, now: u64)
        requires
            old(self).inv(),
        ensures
            Pipeline::tick_step(*old(self), now, *final(self)),
    {
        self.ticks = self.ticks.wrapping_add(1);
        if self.ticks % self.wheel_tick_reduction_factor == 0 {
            self.cm_c.release_timeouts(now, &mut self.wheel_c);
            self.cm_s.release_timeouts(now, &mut self.wheel_s);
        }
    }

    /// What a wire segment to a client port does; see `syn_step`.
    pub open spec fn client_side_step(s0: Pipeline, p0: PacketView, s1: Pipeline, p1: PacketView, r: usize) -> bool {
        &&& s1.inv()
        &&& p1.wf()
        &&& r <= GROUP_KNI
        &&& s0.cm_c.con(p0.tcp.dst_port).is_none() ==> r == GROUP_KNI && p1 == p0
            && TcpCounter::bumped(s0.counter_to, s1.counter_to, TcpStatistics::Unexpected)
            && s1.cm_c.records() == s0.cm_c.records()
            && s1.cm_c.ready_queue() == s0.cm_c.ready_queue()
        &&& s0.cm_c.con(p0.tcp.dst_port).is_some() ==> exists|c1: Connection, o: SegmentOutcome|
            #[trigger] client_step(
                s0.cm_c.con(p0.tcp.dst_port).unwrap(),
                p0,
                s0.counter_to,
                c1,
                p1,
                s1.counter_to,
                o,
            ) && r == o.group && s1.cm_c.con(p0.tcp.dst_port) == (if o.release {
                None
            } else {
                Some(c1)
            }) && s1.cm_c.records() == (if o.release {
                s0.cm_c.records().push(c1.con_rec)
            } else {
                s0.cm_c.records()
            }) && s1.cm_c.ready_queue() == (if o.ready {
                s0.cm_c.ready_queue().push(p0.tcp.dst_port)
            } else {
                s0.cm_c.ready_queue()
            })
        &&& forall|q: u16| q != p0.tcp.dst_port ==> #[trigger] s1.cm_c.con(q) == s0.cm_c.con(q)
        &&& r != GROUP_KNI ==> s0.cm_c.owns(p0.tcp.dst_port)
        &&& s1.nr_connections == s0.nr_connections
        &&& s1.counter_to.spec_get(TcpStatistics::SentSyn) == s0.counter_to.spec_get(TcpStatistics::SentSyn)
        &&& s1.counter_from == s0.counter_from
        &&& s1.syn_injector_ready == s0.syn_injector_ready
        &&& s1.me == s0.me
        &&& s1.servers@ == s0.servers@
        &&& s1.pipeline_ip == s0.pipeline_ip
        &&& s1.cm_c.same_frame(&s0.cm_c)
    }

    /// A wire segment to one of our client ports: the client state machine
    /// runs on the port's connection, which is put back, or released with its
    /// record kept; a connection that becomes established joins the ready
    /// queue and starts the payload injector.
    pub fn client_side(&mut self, p: &mut Packet) -> (r: usize)
        requires
            old(self).inv(),
            old(p)@.wf(),
        ensures
            Pipeline::client_side_step(*old(self), old(p)@, *final(self), final(p)@, r),
    {
        let port = p.tcp.dst_port;
        match self.cm_c.take(port) {
            None => {
                self.counter_to.inc(TcpStatistics::Unexpected);
                GROUP_KNI
            },
            Some(mut c) => {
                let o = client_segment(&mut c, p, &mut self.counter_to);
                let ghost c1 = c;
                if o.release {
                    self.cm_c.release(c);
                } else {
                    self.cm_c.put(c);
                }
                if o.ready {
                    self.cm_c.set_ready_connection(port);
                    if self.cm_c.ready_connections() == 1 {
                        self.payload_injector_ready = true;
                    }
                }
                assert(client_step(
                    old(self).cm_c.con(port).unwrap(),
                    old(p)@,
                    old(self).counter_to,
                    c1,
                    p@,
                    self.counter_to,
                    o,
                ));
                o.group
            },
        }
    }

    /// What a wire segment to the listen port does; see `syn_step`.
    pub open spec fn server_side_step(s0: Pipeline, p0: PacketView, now: u64, s1: Pipeline, p1: PacketView, r: usize) -> bool {
        &&& s1.inv()
        &&& p1.wf()
        &&& r <= GROUP_NIC
        &&& ({
            let key = sock_key_spec(p0.ip.src, p0.tcp.src_port);
            &&& s0.cm_s.con(key).is_none() && !p0.tcp.flags.syn ==> {
                &&& r == GROUP_DROP
                &&& p1 == p0
                &&& s1.counter_from == s0.counter_from
                &&& s1.cm_s.con(key).is_none()
                &&& s1.cm_s.records() == s0.cm_s.records()
            }
            &&& s0.cm_s.con(key).is_some() || p0.tcp.flags.syn ==> exists|
                c0: Connection,
                k0: TcpCounter,
                c1: Connection,
                o: SegmentOutcome,
            |
                {
                    &&& (s0.cm_s.con(key).is_some() ==> c0 == s0.cm_s.con(key).unwrap())
                    &&& (s0.cm_s.con(key).is_none() ==> fresh_listen(
                        c0,
                        p0.ip.src,
                        p0.tcp.src_port,
                        s0.me.port,
                    ))
                    &&& (p0.tcp.flags.syn ==> TcpCounter::bumped(
                        s0.counter_from,
                        k0,
                        TcpStatistics::RecvSyn,
                    ))
                    &&& (!p0.tcp.flags.syn ==> k0 == s0.counter_from)
                    &&& #[trigger] server_segment_step(
                        c0,
                        p0,
                        k0,
                        now,
                        s0.rxq,
                        c1,
                        p1,
                        s1.counter_from,
                        o,
                    )
                    &&& r == o.group
                    &&& s1.cm_s.con(key) == (if o.release {
                        None
                    } else {
                        Some(c1)
                    })
                    &&& s1.cm_s.records() == (if o.release {
                        s0.cm_s.records().push(c1.con_rec)
                    } else {
                        s0.cm_s.records()
                    })
                }
            &&& forall|k: u64| k != key ==> #[trigger] s1.cm_s.con(k) == s0.cm_s.con(k)
        })
        &&& s1.nr_connections == s0.nr_connections
        &&& s1.counter_to == s0.counter_to
        &&& s1.syn_injector_ready == s0.syn_injector_ready
        &&& s1.payload_injector_ready == s0.payload_injector_ready
        &&& s1.me == s0.me
        &&& s1.servers@ == s0.servers@
        &&& s1.pipeline_ip == s0.pipeline_ip
        &&& s1.cm_c == s0.cm_c
    }

    /// A wire segment to the listen port: the server state machine runs on
    /// the connection of the sending socket, opened in Listen by a SYN; the
    /// connection is put back, or released with its record kept.
    pub fn server_side(&mut self, p: &mut Packet, now: u64) -> (r: usize)
        requires
            old(self).inv(),
            old(p)@.wf(),
        ensures
            Pipeline::server_side_step(*old(self), old(p)@, now, *final(self), final(p)@, r),
    {
        let syn = p.tcp.flags.syn;
        if syn {
            self.counter_from.inc(TcpStatistics::RecvSyn);
        }
        let ghost k0 = self.counter_from;
        let ip = p.ip.src;
        let port = p.tcp.src_port;
        match self.cm_s.take(ip, port, self.me.port, syn) {
            None => GROUP_DROP,
            Some(mut c) => {
                let ghost c0 = c;
                let o = server_segment(&mut c, p, &mut self.counter_from, now, self.rxq);
                let ghost c1 = c;
                if o.schedule_timeout {
                    self.wheel_s.schedule(self.established_timeout, now, sock_key(ip, port));
                }
                if o.release {
                    self.cm_s.release(c);
                } else {
                    self.cm_s.put(ip, port, c);
                }
                assert(server_segment_step(c0, old(p)@, k0, now, self.rxq, c1, p@, self.counter_from, o));
                o.group
            },
        }
    }

    /// Answers a fetch of connection records: the records of released
    /// connections of both sides, followed by copies of those still open;
    /// all of them are forgotten here. Client side first.
    pub fn fetch_c_records(&mut self) -> (r: (Vec<ConRecord>, Vec<ConRecord>))
        requires
            old(self).inv(),
        ensures
            final(self).inv(),
            records_appended(old(self).cm_c.records(), r.0@, old(self).cm_c.open_connection_records()),
            exists|cs: Seq<Connection>|
                #[trigger] cs.to_set() == old(self).cm_s.open_connections() && cs.len() == old(self).cm_s.n_open()
                    && records_appended(old(self).cm_s.records(), r.1@, cs.map_values(|c: Connection| c.con_rec)),
            forall|q: u16| #[trigger] final(self).cm_c.con(q) == old(self).cm_c.con(q),
            forall|k: u64| #[trigger] final(self).cm_s.con(k) == old(self).cm_s.con(k),
            final(self).cm_c.records().len() == 0,
            final(self).cm_s.records().len() == 0,
            final(self).nr_connections == old(self).nr_connections,
            final(self).me == old(self).me,
    {
        self.cm_c.record_uncompleted();
        self.cm_s.record_uncompleted();
        (self.cm_c.fetch_c_records(), self.cm_s.fetch_c_records())
    }

    /// What a frame that passed the prefilter does, by the arm it takes:
    /// `p0` becomes `p1` (before its time-to-live is decremented) and the
    /// frame goes to group `g`.
    pub open spec fn dispatch_step(s0: Pipeline, p0: PacketView, now: u64, s1: Pipeline, p1: PacketView, g: usize) -> bool {
        if p0.mac.etype == PRIVATE_ETYPE_PACKET {
            if p0.tcp.dst_port == SYN_INJECTOR_PORT {
                Pipeline::syn_step(s0, p0, now, s1, p1, g)
            } else if p0.tcp.dst_port == PAYLOAD_INJECTOR_PORT {
                Pipeline::payload_step(s0, p0, s1, p1, g)
            } else {
                s1 == s0 && p1 == p0 && g == GROUP_DROP
            }
        } else if p0.mac.etype == PRIVATE_ETYPE_TIMER {
            Pipeline::tick_step(s0, now, s1) && p1 == p0 && g == GROUP_DROP
        } else if p0.tcp.dst_port == s0.me.port {
            Pipeline::server_side_step(s0, p0, now, s1, p1, g)
        } else {
            Pipeline::client_side_step(s0, p0, s1, p1, g)
        }
    }

    /// What `process_frame` does: frame `p0` becomes `p1`, the state `s0`
    /// becomes `s1`, and the verdict is `r`.
    pub open spec fn frame_step(s0: Pipeline, p0: PacketView, now: u64, s1: Pipeline, p1: PacketView, r: Verdict) -> bool {
        &&& s1.inv()
        &&& p1.wf()
        &&& r.group <= GROUP_KNI
        &&& r.poll_control == (p0.mac.etype == PRIVATE_ETYPE_TIMER)
        &&& s0.prefilter_spec(p0).is_some() ==> {
            &&& r.group == s0.prefilter_spec(p0).unwrap()
            &&& p1 == p0
        }
        &&& p0.mac.etype == PRIVATE_ETYPE_TIMER ==> r.group == GROUP_DROP
        &&& p0.mac.etype == PRIVATE_ETYPE_PACKET && p0.tcp.dst_port == SYN_INJECTOR_PORT ==> (r.group
            == GROUP_NIC <==> s0.counter_to.spec_get(TcpStatistics::SentSyn) < s0.nr_connections
            && s0.cm_c.n_free() > 0)
        &&& p0.mac.etype == PRIVATE_ETYPE_PACKET && p0.tcp.dst_port == PAYLOAD_INJECTOR_PORT
            && s0.cm_c.ready_queue().len() == 0 ==> r.group == GROUP_DROP
        &&& p0.mac.etype == PRIVATE_ETYPE_PACKET && p0.tcp.dst_port != SYN_INJECTOR_PORT
            && p0.tcp.dst_port != PAYLOAD_INJECTOR_PORT ==> r.group == GROUP_DROP
        &&& s0.prefilter_spec(p0).is_none() && !is_private(p0) && p0.tcp.dst_port
            != s0.me.port && s0.cm_c.con(p0.tcp.dst_port).is_none() ==> r.group == GROUP_KNI
            && TcpCounter::bumped(s0.counter_to, s1.counter_to, TcpStatistics::Unexpected)
        &&& s0.prefilter_spec(p0).is_none() && !is_private(p0) && r.group != GROUP_KNI
            && p0.tcp.dst_port != s0.me.port ==> s0.cm_c.owns(p0.tcp.dst_port)
        &&& s0.prefilter_spec(p0).is_none() ==> exists|q: PacketView|
            #[trigger] q.with_ttl_done() == p1 && Pipeline::dispatch_step(
                s0,
                with_offload(p0, s0.csum_offload),
                now,
                s1,
                q,
                r.group,
            )
        &&& s1.nr_connections == s0.nr_connections
        &&& s1.me == s0.me
    }

    /// Runs one frame of the merged input through the pipeline, at cycle
    /// count `now`, and tells where it goes. Frames that pass the prefilter
    /// leave with their time-to-live decremented.
    pub fn process_frame(&mut self, p: &mut Packet, now: u64) -> (r: Verdict)
        requires
            old(self).inv(),
            old(p)@.wf(),
        ensures
            Pipeline::frame_step(*old(self), old(p)@, now, *final(self), final(p)@, r),
    {
        if let Some(group) = self.prefilter(p) {
            return Verdict { group, poll_control: false };
        }
        if self.csum_offload {
            p.offload.tcp_ipv4_csum = true;
        }
        let etype = p.mac.etype;
        let dst_port = p.tcp.dst_port;
        let mut poll_control = false;
        let group = if etype == PRIVATE_ETYPE_PACKET {
            if dst_port == SYN_INJECTOR_PORT {
                self.inject_syn(p, now)
            } else if dst_port == PAYLOAD_INJECTOR_PORT {
                self.inject_payload(p)
            } else {
                GROUP_DROP
            }
        } else if etype == PRIVATE_ETYPE_TIMER {
            self.on_tick(now);
            poll_control = true;
            GROUP_DROP
        } else if dst_port == self.me.port {
            self.server_side(p, now)
        } else {
            self.client_side(p)
        };
        let ghost q = p@;
        p.do_ttl();
        Verdict { group, poll_control }
    }

    /// Where a frame that does not parse as IPv4/TCP goes: dropped when it
    /// is too short or not addressed to us, else to the kernel.
    pub open spec fn unparsed_group(&self, b: Seq<u8>) -> usize {
        if b.len() < 14 {
            GROUP_DROP
        } else if be48(b, 0) != self.me.mac && !is_multicast_spec(be48(b, 0) as u64) && be48(b, 0) != BROADCAST_MAC {
            GROUP_DROP
        } else {
            GROUP_KNI
        }
    }

    /// Runs one frame, as bytes, through the pipeline: a frame that parses
    /// goes through `process_frame` and is written back; any other is left
    /// as it is and dropped or handed to the kernel.
    pub fn process_bytes(&mut self, b: &mut Vec<u8>, now: u64) -> (r: Verdict)
        requires
            old(self).inv(),
        ensures
            final(self).inv(),
            r.group <= GROUP_KNI,
            !(old(b)@.len() >= 54 && parsed(old(b)@).wf()) ==> {
                &&& r == Verdict { group: old(self).unparsed_group(old(b)@), poll_control: false }
                &&& final(b)@ == old(b)@
            },
            old(b)@.len() >= 54 && parsed(old(b)@).wf() ==> exists|q: PacketView, v: Verdict|
                #[trigger] Pipeline::frame_step(*old(self), parsed(old(b)@), now, *final(self), q, v) && r == v
                    && final(b)@ == frame_bytes(q),
            old(b)@.len() >= 54 && parsed(old(b)@).wf() ==> {
                &&& r.poll_control == (parsed(old(b)@).mac.etype == PRIVATE_ETYPE_TIMER)
                &&& old(self).prefilter_spec(parsed(old(b)@)).is_some() ==> r.group == old(self).prefilter_spec(
                    parsed(old(b)@),
                ).unwrap() && final(b)@ == frame_bytes(parsed(old(b)@))
                &&& exists|v: PacketView| v.wf() && final(b)@ == frame_bytes(v)
            },
            final(self).nr_connections == old(self).nr_connections,
            final(self).me == old(self).me,
    {
        match Packet::parse(b.as_slice()) {
            Some(mut p) => {
                let v = self.process_frame(&mut p, now);
                *b = p.to_bytes();
                v
            },
            None => {
                if b.len() < 14 {
                    return Verdict { group: GROUP_DROP, poll_control: false };
                }
                let dst = crate::wire::read_mac(b.as_slice(), 0);
                if dst != self.me.mac && !is_multicast(dst) && dst != BROADCAST_MAC {
                    Verdict { group: GROUP_DROP, poll_control: false }
                } else {
                    Verdict { group: GROUP_KNI, poll_control: false }
                }
            },
        }
    }
}

} // verus!
