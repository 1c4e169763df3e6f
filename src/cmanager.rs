//! Connection managers: the client side owns a range of local ports, each
//! with at most one connection; the server side keys connections by the
//! peer's socket.
use vstd::prelude::*;
use crate::connection::Connection;
use crate::tcp_common::{ConRecord, ReleaseCause, TcpRole, TcpState};
use crate::timer_wheel::TimerWheel;

verus! {

/// A copy of a record, state by state.
pub fn copy_record(r: &ConRecord) -> (c: ConRecord)
    ensures
        c.states@ == r.states@,
        (ConRecord { states: r.states, ..c }) == *r,
{
    let mut states: Vec<TcpState> = Vec::new();
    let mut i: usize = 0;
    while i < r.states.len()
        invariant
            i <= r.states@.len(),
            states@ == r.states@.subrange(0, i as int),
        decreases r.states@.len() - i,
    {
        states.push(r.states[i]);
        i = i + 1;
        assert(states@ =~= r.states@.subrange(0, i as int));
    }
    assert(states@ =~= r.states@);
    ConRecord { states, ..*r }
}

/// `a` holds what `b` holds: the same states and the same other fields.
pub open spec fn same_record(a: ConRecord, b: ConRecord) -> bool {
    a.states@ == b.states@ && (ConRecord { states: b.states, ..a }) == b
}

/// The records of the connections in `s`, in order.
pub open spec fn open_records(s: Seq<Option<Connection>>) -> Seq<ConRecord>
    decreases s.len(),
{
    if s.len() == 0 {
        Seq::empty()
    } else {
        open_records(s.drop_last()) + match s.last() {
            Some(c) => seq![c.con_rec],
            None => Seq::empty(),
        }
    }
}

/// `new` is `old` followed by copies of `added`.
pub open spec fn records_appended(old: Seq<ConRecord>, new: Seq<ConRecord>, added: Seq<ConRecord>) -> bool {
    &&& new.len() == old.len() + added.len()
    &&& new.subrange(0, old.len() as int) == old
    &&& forall|i: int| 0 <= i < added.len() ==> #[trigger] same_record(new[old.len() + i], added[i])
}

/// The client-side connections of one pipeline, over the local ports
/// `tcp_port_base .. tcp_port_base + n_ports`.
pub struct ConnectionManagerC {
    port2con: Vec<Option<Connection>>,
    free_ports: Vec<u16>,
    ready: Vec<u16>,
    c_records: Vec<ConRecord>,
    tcp_port_base: u16,
    ip: u32,
    special_port: u16,
}

impl ConnectionManagerC {
    pub closed spec fn wf(&self) -> bool {
        &&& self.tcp_port_base + self.port2con@.len() <= 0x10000
        &&& self.free_ports@.no_duplicates()
        &&& forall|j: int|
            0 <= j < self.free_ports@.len() ==> {
                let p = #[trigger] self.free_ports@[j];
                &&& self.tcp_port_base <= p < self.tcp_port_base + self.port2con@.len()
                &&& self.port2con@[p - self.tcp_port_base].is_none()
            }
        &&& forall|i: int|
            0 <= i < self.port2con@.len() && (#[trigger] self.port2con@[i]).is_some() ==> {
                &&& self.port2con@[i].unwrap().port == self.tcp_port_base + i
                &&& self.port2con@[i].unwrap().wf()
            }
    }

    /// The local port lies in this pipeline's range.
    pub closed spec fn owns(&self, port: u16) -> bool {
        self.tcp_port_base <= port < self.tcp_port_base + self.port2con@.len()
    }

    /// The connection on a local port.
    pub closed spec fn con(&self, port: u16) -> Option<Connection> {
        if self.owns(port) {
            self.port2con@[port - self.tcp_port_base]
        } else {
            None
        }
    }

    /// The port is in the pool of ports to hand out.
    pub closed spec fn is_free(&self, port: u16) -> bool {
        self.free_ports@.contains(port)
    }

    pub closed spec fn n_free(&self) -> nat {
        self.free_ports@.len()
    }

    /// The ports queued as ready for their data segment, oldest first.
    pub closed spec fn ready_queue(&self) -> Seq<u16> {
        self.ready@
    }

    /// The records of released connections, not yet fetched.
    pub closed spec fn records(&self) -> Seq<ConRecord> {
        self.c_records@
    }

    pub closed spec fn spec_ip(&self) -> u32 {
        self.ip
    }

    pub closed spec fn spec_special_port(&self) -> u16 {
        self.special_port
    }

    pub closed spec fn spec_tcp_port_base(&self) -> u16 {
        self.tcp_port_base
    }

    /// The records of the open connections, by port.
    pub closed spec fn open_connection_records(&self) -> Seq<ConRecord> {
        open_records(self.port2con@)
    }

    /// A connection on a port never stands in the pool at the same time.
    pub proof fn lemma_con_not_free(&self, port: u16)
        requires
            self.wf(),
            self.con(port).is_some(),
        ensures
            !self.is_free(port),
            self.con(port).unwrap().port == port,
            self.con(port).unwrap().wf(),
    {
        if self.is_free(port) {
            let j = choose|j: int| 0 <= j < self.free_ports@.len() && self.free_ports@[j] == port;
            assert(self.port2con@[self.free_ports@[j] - self.tcp_port_base].is_none());
        }
        assert(self.port2con@[port - self.tcp_port_base].is_some());
    }

    /// A manager for `n_ports` local ports from `tcp_port_base`, all free, on
    /// the pipeline address `ip` with listen port `special_port`.
    pub fn new(ip: u32, special_port: u16, tcp_port_base: u16, n_ports: u16) -> (r: ConnectionManagerC)
        requires
            tcp_port_base + n_ports <= 0x10000,
        ensures
            r.wf(),
            forall|p: u16| r.owns(p) <==> tcp_port_base <= p < tcp_port_base + n_ports,
            forall|p: u16| #[trigger] r.con(p).is_none(),
            forall|p: u16| r.owns(p) ==> #[trigger] r.is_free(p),
            r.n_free() == n_ports,
            r.ready_queue().len() == 0,
            r.records().len() == 0,
            r.spec_ip() == ip,
            r.spec_special_port() == special_port,
            r.spec_tcp_port_base() == tcp_port_base,
    {
        let mut port2con: Vec<Option<Connection>> = Vec::new();
        let mut free_ports: Vec<u16> = Vec::new();
        let mut i: u16 = 0;
        while i < n_ports
            invariant
                i <= n_ports,
                tcp_port_base + n_ports <= 0x10000,
                port2con@.len() == i,
                free_ports@.len() == i,
                forall|k: int| 0 <= k < i ==> (#[trigger] port2con@[k]).is_none(),
                forall|k: int| 0 <= k < i ==> #[trigger] free_ports@[k] == tcp_port_base + i - 1 - k,
            decreases n_ports - i,
        {
            port2con.push(None);
            // handed out from the back: lowest port first
            free_ports.insert(0, tcp_port_base + i);
            i = i + 1;
        }
        let r = ConnectionManagerC {
            port2con,
            free_ports,
            ready: Vec::new(),
            c_records: Vec::new(),
            tcp_port_base,
            ip,
            special_port,
        };
        assert forall|p: u16| r.owns(p) implies #[trigger] r.is_free(p) by {
            let k = tcp_port_base + n_ports - 1 - p;
            assert(r.free_ports@[k] == p);
        }
        r
    }

    pub fn ip(&self) -> (r: u32)
        ensures
            r == self.spec_ip(),
    {
        self.ip
    }

    /// The listen port of the pipeline.
    pub fn special_port(&self) -> (r: u16)
        ensures
            r == self.spec_special_port(),
    {
        self.special_port
    }

    pub fn tcp_port_base(&self) -> (r: u16)
        ensures
            r == self.spec_tcp_port_base(),
    {
        self.tcp_port_base
    }

    /// The connection on a local port, if any.
    pub fn get_by_port(&self, port: u16) -> (r: Option<&Connection>)
        ensures
            r.is_some() == self.con(port).is_some(),
            r.is_some() ==> *r.unwrap() == self.con(port).unwrap(),
    {
        if !self.owns_tcp_port(port) {
            return None;
        }
        match &self.port2con[(port - self.tcp_port_base) as usize] {
            Some(c) => Some(c),
            None => None,
        }
    }

    pub fn owns_tcp_port(&self, port: u16) -> (r: bool)
        ensures
            r == self.owns(port),
    {
        port >= self.tcp_port_base && ((port - self.tcp_port_base) as usize) < self.port2con.len()
    }

    /// Opens a client connection, in state SynSent, on a port from the pool.
    /// `None` when the pool is empty.
    pub fn create(&mut self, uuid: [u8; 16]) -> (r: Option<u16>)
        requires
            old(self).wf(),
        ensures
            final(self).wf(),
            r.is_some() == (old(self).n_free() > 0),
            r.is_some() ==> {
                let p = r.unwrap();
                let c = final(self).con(p).unwrap();
                &&& old(self).owns(p)
                &&& old(self).con(p).is_none()
                &&& old(self).is_free(p)
                &&& !final(self).is_free(p)
                &&& final(self).con(p).is_some()
                &&& c.port == p
                &&& c.role == TcpRole::Client
                &&& c.con_rec.states@ == seq![TcpState::SynSent]
                &&& c.con_rec.uuid == Some(uuid)
                &&& c.con_rec.server_index == 0
                &&& c.seqn_nxt == 0
                &&& c.ackn_nxt == 0
                &&& c.con_rec.payload_packets == 0
                &&& c.con_rec.release_cause.is_none()
                &&& final(self).n_free() == old(self).n_free() - 1
                &&& forall|q: u16| q != p ==> #[trigger] final(self).con(q) == old(self).con(q)
                &&& forall|q: u16| q != p ==> #[trigger] final(self).is_free(q) == old(self).is_free(q)
            },
            r.is_none() ==> *final(self) == *old(self),
            forall|q: u16| #[trigger] final(self).owns(q) == old(self).owns(q),
            final(self).ready_queue() == old(self).ready_queue(),
            final(self).records() == old(self).records(),
            final(self).spec_ip() == old(self).spec_ip(),
            final(self).spec_special_port() == old(self).spec_special_port(),
            final(self).spec_tcp_port_base() == old(self).spec_tcp_port_base(),
    {
        if self.free_ports.len() == 0 {
            return None;
        }
        let ghost free0 = self.free_ports@;
        let port = self.free_ports.pop().unwrap();
        assert(free0 =~= self.free_ports@.push(port));
        assert(free0[free0.len() - 1] == port);
        let mut c = Connection::new(port, TcpRole::Client, TcpState::SynSent);
        c.con_rec.uuid = Some(uuid);
        let i = (port - self.tcp_port_base) as usize;
        self.port2con.set(i, Some(c));
        proof {
            assert forall|j: int| 0 <= j < self.free_ports@.len() implies self.port2con@[#[trigger] self.free_ports@[j] - self.tcp_port_base].is_none() by {
                assert(free0[j] == self.free_ports@[j]);
                assert(free0[j] != free0[free0.len() - 1]);
            }
            assert forall|q: u16| q != port implies #[trigger] self.is_free(q) == old(self).is_free(q) by {
                if old(self).is_free(q) {
                    let j = choose|j: int| 0 <= j < free0.len() && free0[j] == q;
                    assert(j != free0.len() - 1);
                    assert(self.free_ports@[j] == q);
                }
            }
            assert(!self.free_ports@.contains(port)) by {
                if self.free_ports@.contains(port) {
                    let j = choose|j: int| 0 <= j < self.free_ports@.len() && self.free_ports@[j] == port;
                    assert(free0[j] == free0[free0.len() - 1]);
                }
            }
            assert(old(self).is_free(port));
        }
        Some(port)
    }

    /// Everything but the ready queue is as in `o`.
    pub closed spec fn all_but_ready_as(&self, o: &ConnectionManagerC) -> bool {
        *self == (ConnectionManagerC { ready: self.ready, ..*o })
    }

    /// Everything but the released records is as in `o`.
    pub closed spec fn all_but_records_as(&self, o: &ConnectionManagerC) -> bool {
        *self == (ConnectionManagerC { c_records: self.c_records, ..*o })
    }

    /// Frames that only this pipeline's manager reads: everything but the
    /// connections and the pool is as in `o`.
    pub open spec fn same_frame(&self, o: &ConnectionManagerC) -> bool {
        &&& forall|q: u16| #[trigger] self.owns(q) == o.owns(q)
        &&& self.spec_ip() == o.spec_ip()
        &&& self.spec_special_port() == o.spec_special_port()
        &&& self.spec_tcp_port_base() == o.spec_tcp_port_base()
    }

    /// Takes the connection off its port for an update; `put` brings it back.
    pub fn take(&mut self, port: u16) -> (r: Option<Connection>)
        requires
            old(self).wf(),
        ensures
            final(self).wf(),
            r == old(self).con(port),
            r.is_some() ==> r.unwrap().port == port && r.unwrap().wf() && !old(self).is_free(port) && old(self).owns(port),
            final(self).con(port).is_none(),
            forall|q: u16| q != port ==> #[trigger] final(self).con(q) == old(self).con(q),
            forall|q: u16| #[trigger] final(self).is_free(q) == old(self).is_free(q),
            final(self).n_free() == old(self).n_free(),
            final(self).same_frame(old(self)),
            final(self).ready_queue() == old(self).ready_queue(),
            final(self).records() == old(self).records(),
    {
        if !self.owns_tcp_port(port) {
            return None;
        }
        proof {
            if self.con(port).is_some() {
                self.lemma_con_not_free(port);
            }
        }
        let i = (port - self.tcp_port_base) as usize;
        let mut slot: Option<Connection> = None;
        std::mem::swap(&mut self.port2con[i], &mut slot);
        slot
    }

    /// Puts a connection back on its port.
    pub fn put(&mut self, c: Connection)
        requires
            old(self).wf(),
            old(self).owns(c.port),
            old(self).con(c.port).is_none(),
            !old(self).is_free(c.port),
            c.wf(),
        ensures
            final(self).wf(),
            final(self).con(c.port) == Some(c),
            forall|q: u16| q != c.port ==> #[trigger] final(self).con(q) == old(self).con(q),
            forall|q: u16| #[trigger] final(self).is_free(q) == old(self).is_free(q),
            final(self).n_free() == old(self).n_free(),
            final(self).same_frame(old(self)),
            final(self).ready_queue() == old(self).ready_queue(),
            final(self).records() == old(self).records(),
    {
        let port = c.port;
        let i = (port - self.tcp_port_base) as usize;
        self.port2con.set(i, Some(c));
        assert forall|j: int| 0 <= j < self.free_ports@.len() implies self.port2con@[#[trigger] self.free_ports@[j] - self.tcp_port_base].is_none() by {
            assert(self.free_ports@[j] != port);
        }
    }

    /// Ends a taken connection: its record joins the released ones and its
    /// port returns to the pool.
    pub fn release(&mut self, c: Connection)
        requires
            old(self).wf(),
            old(self).owns(c.port),
            old(self).con(c.port).is_none(),
            !old(self).is_free(c.port),
        ensures
            final(self).wf(),
            final(self).con(c.port).is_none(),
            final(self).is_free(c.port),
            final(self).n_free() == old(self).n_free() + 1,
            forall|q: u16| #[trigger] final(self).con(q) == old(self).con(q),
            forall|q: u16| q != c.port ==> #[trigger] final(self).is_free(q) == old(self).is_free(q),
            final(self).same_frame(old(self)),
            final(self).ready_queue() == old(self).ready_queue(),
            final(self).records() == old(self).records().push(c.con_rec),
    {
        let ghost free0 = self.free_ports@;
        self.free_ports.push(c.port);
        self.c_records.push(c.con_rec);
        proof {
            assert(!free0.contains(c.port));
            assert forall|i: int, j: int| 0 <= i < j < self.free_ports@.len() implies self.free_ports@[i] != self.free_ports@[j] by {
                if j == free0.len() {
                    assert(free0[i] == self.free_ports@[i]);
                }
            }
            assert(self.free_ports@.contains(c.port)) by {
                assert(self.free_ports@[free0.len() as int] == c.port);
            }
            assert forall|q: u16| q != c.port implies #[trigger] self.is_free(q) == old(self).is_free(q) by {
                if self.is_free(q) {
                    let j = choose|j: int| 0 <= j < self.free_ports@.len() && self.free_ports@[j] == q;
                    assert(free0[j] == q);
                }
                if old(self).is_free(q) {
                    let j = choose|j: int| 0 <= j < free0.len() && free0[j] == q;
                    assert(self.free_ports@[j] == q);
                }
            }
        }
    }

    /// Queues a port whose connection is established, for its data segment.
    pub fn set_ready_connection(&mut self, port: u16)
        ensures
            final(self).ready_queue() == old(self).ready_queue().push(port),
            final(self).all_but_ready_as(old(self)),
            final(self).records() == old(self).records(),
            final(self).wf() == old(self).wf(),
            final(self).same_frame(old(self)),
            forall|q: u16| #[trigger] final(self).con(q) == old(self).con(q),
            forall|q: u16| #[trigger] final(self).is_free(q) == old(self).is_free(q),
            final(self).n_free() == old(self).n_free(),

    {
        self.ready.push(port);
    }

    /// The number of ports queued as ready.
    pub fn ready_connections(&self) -> (r: usize)
        ensures
            r == self.ready_queue().len(),
    {
        self.ready.len()
    }

    /// Dequeues ready ports, oldest first, until one that still has a
    /// connection; returns it, or `None` when the queue runs empty.
    pub fn get_ready_connection(&mut self) -> (r: Option<u16>)
        requires
            old(self).wf(),
        ensures
            final(self).wf(),
            final(self).all_but_ready_as(old(self)),
            final(self).records() == old(self).records(),
            final(self).wf() == old(self).wf(),
            final(self).same_frame(old(self)),
            forall|q: u16| #[trigger] final(self).con(q) == old(self).con(q),
            forall|q: u16| #[trigger] final(self).is_free(q) == old(self).is_free(q),
            final(self).n_free() == old(self).n_free(),
            old(self).ready_queue().len() == 0 ==> r.is_none(),
            r.is_some() ==> final(self).con(r.unwrap()).is_some(),
            exists|k: int|
                0 <= k <= old(self).ready_queue().len() && #[trigger] old(self).ready_queue().skip(k) == final(self).ready_queue()
                    && (forall|j: int| 0 <= j < k - 1 ==> old(self).con(#[trigger] old(self).ready_queue()[j]).is_none())
                    && (r.is_some() ==> k >= 1 && r.unwrap() == old(self).ready_queue()[k - 1])
                    && (r.is_none() ==> k == old(self).ready_queue().len() && (k > 0 ==> old(self).con(old(self).ready_queue()[k - 1]).is_none())),
    {
        let ghost q0 = self.ready@;
        assert(q0.len() == self.ready.len());
        let mut k: usize = 0;
        while self.ready.len() > 0
            invariant
                self.wf(),
                *self == (ConnectionManagerC { ready: self.ready, ..*old(self) }),
                q0 == old(self).ready_queue(),
                k <= q0.len(),
                q0.len() <= usize::MAX,
                self.ready@ == q0.skip(k as int),
                forall|j: int| 0 <= j < k ==> old(self).con(#[trigger] q0[j]).is_none(),
            decreases self.ready@.len(),
        {
            let port = self.ready.remove(0);
            k = k + 1;
            assert(self.ready@ =~= q0.skip(k as int));
            if self.owns_tcp_port(port) && self.port2con[(port - self.tcp_port_base) as usize].is_some() {
                return Some(port);
            }
        }
        assert(q0.skip(q0.len() as int) =~= self.ready@);
        None
    }

    /// Copies the record of every open connection into the released ones,
    /// so that a fetch also reports connections that did not finish.
    pub fn record_uncompleted(&mut self)
        requires
            old(self).wf(),
        ensures
            final(self).wf(),
            final(self).all_but_records_as(old(self)),
            final(self).ready_queue() == old(self).ready_queue(),
            final(self).wf() == old(self).wf(),
            final(self).same_frame(old(self)),
            forall|q: u16| #[trigger] final(self).con(q) == old(self).con(q),
            forall|q: u16| #[trigger] final(self).is_free(q) == old(self).is_free(q),
            final(self).n_free() == old(self).n_free(),
            records_appended(old(self).records(), final(self).records(), old(self).open_connection_records()),
    {
        let mut i: usize = 0;
        let ghost r0 = self.c_records@;
        assert(self.port2con@.subrange(0, 0) =~= Seq::<Option<Connection>>::empty());
        assert(open_records(self.port2con@.subrange(0, 0)) =~= Seq::<ConRecord>::empty());
        assert(self.c_records@.subrange(0, r0.len() as int) =~= r0);
        while i < self.port2con.len()
            invariant
                self.wf(),
                *self == (ConnectionManagerC { c_records: self.c_records, ..*old(self) }),
                i <= self.port2con@.len(),
                r0 == old(self).c_records@,
                records_appended(r0, self.c_records@, open_records(self.port2con@.subrange(0, i as int))),
            decreases self.port2con@.len() - i,
        {
            let ghost before = self.c_records@;
            let ghost sub = self.port2con@.subrange(0, i as int + 1);
            assert(sub.drop_last() =~= self.port2con@.subrange(0, i as int));
            if let Some(c) = &self.port2con[i] {
                let r = copy_record(&c.con_rec);
                self.c_records.push(r);
                assert(self.c_records@.subrange(0, r0.len() as int) =~= before.subrange(0, r0.len() as int));
                let ghost added = open_records(sub);
                assert forall|k: int| 0 <= k < added.len() implies #[trigger] same_record(self.c_records@[r0.len() + k], added[k]) by {
                    if k < added.len() - 1 {
                        assert(same_record(before[r0.len() + k], open_records(self.port2con@.subrange(0, i as int))[k]));
                    }
                }
            } else {
                assert(open_records(sub) =~= open_records(self.port2con@.subrange(0, i as int)));
            }
            i = i + 1;
        }
        assert(self.port2con@.subrange(0, i as int) =~= self.port2con@);
    }

    /// Hands out the released records and forgets them.
    pub fn fetch_c_records(&mut self) -> (r: Vec<ConRecord>)
        requires
            old(self).wf(),
        ensures
            final(self).wf(),
            r@ == old(self).records(),
            final(self).records().len() == 0,
            final(self).all_but_records_as(old(self)),
            final(self).ready_queue() == old(self).ready_queue(),
            final(self).wf() == old(self).wf(),
            final(self).same_frame(old(self)),
            forall|q: u16| #[trigger] final(self).con(q) == old(self).con(q),
            forall|q: u16| #[trigger] final(self).is_free(q) == old(self).is_free(q),
            final(self).n_free() == old(self).n_free(),

    {
        let mut r: Vec<ConRecord> = Vec::new();
        std::mem::swap(&mut self.c_records, &mut r);
        r
    }

    /// The connection on `q` is one whose expired timeout ends it: it is
    /// still short of Established.
    pub open spec fn times_out(&self, q: u16) -> bool {
        self.con(q).is_some() && self.con(q).unwrap().state().rank_spec() < TcpState::Established.rank_spec()
    }

    /// What ending the timed-out connections named by `toks` does: `rel`
    /// lists, once each, the tokens whose connection timed out; each of them
    /// is gone, and exactly their records, with cause Timeout, follow the
    /// records kept before, in that order. Nothing else changes.
    pub open spec fn released_exactly(
        old: ConnectionManagerC,
        new: ConnectionManagerC,
        toks: Seq<u16>,
        rel: Seq<u16>,
    ) -> bool {
        &&& rel.no_duplicates()
        &&& forall|q: u16| rel.contains(q) <==> (toks.contains(q) && old.times_out(q))
        &&& forall|q: u16| #[trigger] new.con(q) == (if rel.contains(q) { None } else { old.con(q) })
        &&& new.records().len() == old.records().len() + rel.len()
        &&& new.records().subrange(0, old.records().len() as int) == old.records()
        &&& forall|i: int|
            0 <= i < rel.len() ==> #[trigger] new.records()[old.records().len() + i] == (ConRecord {
                release_cause: Some(ReleaseCause::Timeout),
                ..old.con(rel[i]).unwrap().con_rec
            })
    }

    pub open spec fn timeouts_released(old: ConnectionManagerC, new: ConnectionManagerC, toks: Seq<u16>) -> bool {
        exists|rel: Seq<u16>| #[trigger] ConnectionManagerC::released_exactly(old, new, toks, rel)
    }

    fn release_if_unestablished(&mut self, port: u16)
        requires
            old(self).wf(),
        ensures
            final(self).wf(),
            final(self).same_frame(old(self)),
            final(self).ready_queue() == old(self).ready_queue(),
            forall|q: u16| q != port ==> #[trigger] final(self).con(q) == old(self).con(q),
            old(self).times_out(port) ==> final(self).con(port).is_none() && final(self).records()
                == old(self).records().push(
                ConRecord { release_cause: Some(ReleaseCause::Timeout), ..old(self).con(port).unwrap().con_rec },
            ),
            !old(self).times_out(port) ==> final(self).con(port) == old(self).con(port) && final(self).records()
                == old(self).records(),
    {
        let taken = self.take(port);
        if let Some(mut c) = taken {
            if c.last_state().rank() < TcpState::Established.rank() {
                c.released(ReleaseCause::Timeout);
                self.release(c);
            } else {
                self.put(c);
            }
        }
    }

    /// Ends the connections whose establishment timeout expired by `now`
    /// and which are still short of Established, with cause Timeout.
    pub fn release_timeouts(&mut self, now: u64, wheel: &mut TimerWheel<u16>)
        requires
            old(self).wf(),
            old(wheel).wf(),
        ensures
            final(self).wf(),
            final(self).same_frame(old(self)),
            final(self).ready_queue() == old(self).ready_queue(),
            exists|toks: Seq<u16>|
                #[trigger] TimerWheel::released(*old(wheel), *final(wheel), now, toks)
                    && ConnectionManagerC::timeouts_released(*old(self), *final(self), toks),
            old(wheel).next_deadline() > now ==> *final(self) == *old(self),
    {
        let expired = wheel.release(now);
        let ghost toks = expired@;
        let ghost mut rel: Seq<u16> = Seq::empty();
        let mut i: usize = 0;
        assert(self.records().subrange(0, old(self).records().len() as int) =~= old(self).records());
        while i < expired.len()
            invariant
                self.wf(),
                i <= expired@.len(),
                toks == expired@,
                self.same_frame(old(self)),
                self.ready_queue() == old(self).ready_queue(),
                rel.no_duplicates(),
                forall|q: u16| rel.contains(q) <==> (toks.subrange(0, i as int).contains(q) && old(self).times_out(q)),
                forall|q: u16| #[trigger] self.con(q) == (if rel.contains(q) { None } else { old(self).con(q) }),
                self.records().len() == old(self).records().len() + rel.len(),
                self.records().subrange(0, old(self).records().len() as int) == old(self).records(),
                forall|k: int|
                    0 <= k < rel.len() ==> #[trigger] self.records()[old(self).records().len() + k] == (ConRecord {
                        release_cause: Some(ReleaseCause::Timeout),
                        ..old(self).con(rel[k]).unwrap().con_rec
                    }),
                expired@.len() == 0 ==> *self == *old(self),
            decreases expired@.len() - i,
        {
            let port = expired[i];
            let ghost before = *self;
            let ghost rel0 = rel;
            let ghost sub0 = toks.subrange(0, i as int);
            let ghost sub1 = toks.subrange(0, i as int + 1);
            proof {
                assert(sub1 =~= sub0.push(port));
            }
            self.release_if_unestablished(port);
            proof {
                if before.times_out(port) {
                    assert(!rel0.contains(port));
                    assert(old(self).con(port) == before.con(port));
                    rel = rel0.push(port);
                    assert(rel.no_duplicates()) by {
                        assert forall|a: int, b: int| 0 <= a < b < rel.len() implies rel[a] != rel[b] by {
                            if b == rel0.len() {
                                assert(rel0.contains(rel0[a]));
                            }
                        }
                    }
                    assert forall|q: u16| rel.contains(q) <==> (toks.subrange(0, i as int + 1).contains(q)
                        && old(self).times_out(q)) by {
                        if q == port {
                            assert(rel[rel0.len() as int] == port);
                            assert(sub1[i as int] == port);
                        } else {
                            if rel.contains(q) {
                                let k = choose|k: int| 0 <= k < rel.len() && rel[k] == q;
                                assert(rel0[k] == q);
                            }
                            if sub1.contains(q) {
                                let k = choose|k: int| 0 <= k < sub1.len() && sub1[k] == q;
                                assert(sub0[k] == q);
                            }
                            if rel0.contains(q) {
                                let k = choose|k: int| 0 <= k < rel0.len() && rel0[k] == q;
                                assert(rel[k] == q);
                            }
                        }
                    }
                    assert forall|q: u16| #[trigger] self.con(q) == (if rel.contains(q) { None } else { old(self).con(q) }) by {
                        if q != port {
                            assert(rel.contains(q) == rel0.contains(q)) by {
                                if rel.contains(q) {
                                    let k = choose|k: int| 0 <= k < rel.len() && rel[k] == q;
                                    assert(rel0[k] == q);
                                }
                                if rel0.contains(q) {
                                    let k = choose|k: int| 0 <= k < rel0.len() && rel0[k] == q;
                                    assert(rel[k] == q);
                                }
                            }
                        } else {
                            assert(rel[rel0.len() as int] == port);
                        }
                    }
                    assert(self.records().subrange(0, old(self).records().len() as int) =~= old(self).records()) by {
                        assert(self.records().subrange(0, old(self).records().len() as int) =~= before.records().subrange(
                            0,
                            old(self).records().len() as int,
                        ));
                    }
                    assert forall|k: int| 0 <= k < rel.len() implies #[trigger] self.records()[old(self).records().len() + k]
                        == (ConRecord { release_cause: Some(ReleaseCause::Timeout), ..old(self).con(rel[k]).unwrap().con_rec }) by {
                        if k < rel0.len() {
                            assert(self.records()[old(self).records().len() + k] == before.records()[old(self).records().len() + k]);
                        }
                    }
                } else {
                    assert forall|q: u16| rel.contains(q) <==> (toks.subrange(0, i as int + 1).contains(q)
                        && old(self).times_out(q)) by {
                        if sub1.contains(q) && old(self).times_out(q) && q != port {
                            let k = choose|k: int| 0 <= k < sub1.len() && sub1[k] == q;
                            assert(sub0[k] == q);
                        }
                        if q == port && old(self).times_out(q) {
                            assert(before.con(port) != old(self).con(port));
                        }
                        if sub0.contains(q) {
                            let k = choose|k: int| 0 <= k < sub0.len() && sub0[k] == q;
                            assert(sub1[k] == q);
                        }
                    }
                    assert forall|q: u16| #[trigger] self.con(q) == (if rel.contains(q) { None } else { old(self).con(q) }) by {
                        assert(before.con(q) == (if rel.contains(q) { None } else { old(self).con(q) }));
                    }
                }
            }
            i = i + 1;
        }
        proof {
            assert(toks.subrange(0, i as int) =~= toks);
            assert(ConnectionManagerC::released_exactly(*old(self), *self, toks, rel));
        }
    }
}

} // verus!

verus! {

/// The key of a peer socket: address and port in one integer.
pub open spec fn sock_key_spec(ip: u32, port: u16) -> u64 {
    (ip as nat * 0x1_0000 + port as nat) as u64
}

pub fn sock_key(ip: u32, port: u16) -> (r: u64)
    ensures
        r == sock_key_spec(ip, port),
{
    ip as u64 * 0x1_0000 + port as u64
}

/// A connection just opened in Listen for the peer socket `(ip, port)`.
pub open spec fn fresh_listen(c: Connection, ip: u32, port: u16, listen_port: u16) -> bool {
    &&& c.con_rec.states@ == seq![TcpState::Listen]
    &&& c.port == listen_port
    &&& c.role == TcpRole::Server
    &&& c.dut_ip == ip
    &&& c.dut_port == port
    &&& c.con_rec.payload_packets == 0
    &&& c.con_rec.release_cause.is_none()
    &&& c.con_rec.uuid.is_none()
    &&& c.wf()
}

/// The server-side connections of one pipeline, keyed by the peer's socket.
pub struct ConnectionManagerS {
    sock2con: std::collections::HashMap<u64, Connection>,
    c_records: Vec<ConRecord>,
}

impl ConnectionManagerS {
    pub closed spec fn wf(&self) -> bool {
        forall|k: u64| #[trigger] self.sock2con@.contains_key(k) ==> self.sock2con@[k].wf()
    }

    /// The connection with a peer socket key.
    pub closed spec fn con(&self, k: u64) -> Option<Connection> {
        if self.sock2con@.contains_key(k) {
            Some(self.sock2con@[k])
        } else {
            None
        }
    }

    pub closed spec fn records(&self) -> Seq<ConRecord> {
        self.c_records@
    }

    /// Every connection held has a current state.
    pub proof fn lemma_con_wf(&self, k: u64)
        requires
            self.wf(),
            self.con(k).is_some(),
        ensures
            self.con(k).unwrap().wf(),
    {
    }

    pub fn new() -> (r: ConnectionManagerS)
        ensures
            r.wf(),
            forall|k: u64| #[trigger] r.con(k).is_none(),
            r.records().len() == 0,
    {
        ConnectionManagerS { sock2con: std::collections::HashMap::new(), c_records: Vec::new() }
    }

    /// The connection with the peer socket `(ip, port)`, if any.
    pub fn get(&self, ip: u32, port: u16) -> (r: Option<&Connection>)
        ensures
            r.is_some() == self.con(sock_key_spec(ip, port)).is_some(),
            r.is_some() ==> *r.unwrap() == self.con(sock_key_spec(ip, port)).unwrap(),
    {
        self.sock2con.get(&sock_key(ip, port))
    }

    /// The open connections.
    pub closed spec fn open_connections(&self) -> Set<Connection> {
        self.sock2con@.values()
    }

    /// The number of open connections.
    pub closed spec fn n_open(&self) -> nat {
        self.sock2con@.dom().len()
    }

    /// Copies the record of every open connection into the released ones,
    /// in no particular order.
    pub fn record_uncompleted(&mut self)
        requires
            old(self).wf(),
        ensures
            final(self).wf(),
            forall|k: u64| #[trigger] final(self).con(k) == old(self).con(k),
            exists|cs: Seq<Connection>|
                #[trigger] cs.to_set() == old(self).open_connections() && cs.len() == old(self).n_open()
                    && records_appended(
                    old(self).records(),
                    final(self).records(),
                    cs.map_values(|c: Connection| c.con_rec),
                ),
    {
        let ghost r0 = self.c_records@;
        let ghost mut cs: Seq<Connection> = Seq::empty();
        let ghost mut n: int = 0;
        proof {
            if old(self).n_open() == 0 {
                assert(old(self).sock2con@.dom() =~= Set::<u64>::empty()) by {
                    vstd::set_lib::lemma_set_empty_equivalency_len(old(self).sock2con@.dom());
                }
                assert(old(self).open_connections() =~= Set::<Connection>::empty());
                assert(Seq::<Connection>::empty().to_set() =~= Set::<Connection>::empty());
            }
        }
        assert(self.c_records@.subrange(0, r0.len() as int) =~= r0);
        assert(Seq::<Connection>::empty().map_values(|c: Connection| c.con_rec) =~= Seq::<ConRecord>::empty());
        for c in it: self.sock2con.values()
            invariant
                self.sock2con@ == old(self).sock2con@,
                r0 == old(self).c_records@,
                n == it.index(),
                it.index() <= it.seq().len(),
                it.seq().len() == old(self).n_open(),
                it.seq().unref().to_set() == old(self).open_connections(),
                cs == it.seq().unref().take(n),
                n == old(self).n_open() ==> cs.to_set() == old(self).open_connections(),
                records_appended(r0, self.c_records@, cs.map_values(|c: Connection| c.con_rec)),
        {
            let ghost before = self.c_records@;
            let ghost done = cs.map_values(|c: Connection| c.con_rec);
            let r = copy_record(&c.con_rec);
            self.c_records.push(r);
            proof {
                let cs1 = cs.push(*c);
                let next = cs1.map_values(|c: Connection| c.con_rec);
                assert(next =~= done.push(c.con_rec));
                assert(self.c_records@.subrange(0, r0.len() as int) =~= before.subrange(0, r0.len() as int));
                assert forall|i: int| 0 <= i < next.len() implies #[trigger] same_record(self.c_records@[r0.len() + i], next[i]) by {
                    if i < done.len() {
                        assert(same_record(before[r0.len() + i], done[i]));
                    }
                }
                cs = cs1;
                n = n + 1;
            }
            assert(n == it.seq().len() ==> it.seq().unref().take(n) =~= it.seq().unref());
            assert(cs =~= it.seq().unref().take(n));
            assert(n == old(self).n_open() ==> cs == it.seq().unref());
        }
        proof {
            assert(cs.len() == old(self).n_open());
        }
    }

    /// Takes the connection with the peer socket `(ip, port)` for an update;
    /// with `insert`, one in state Listen is opened when there is none.
    pub fn take(&mut self, ip: u32, port: u16, listen_port: u16, insert: bool) -> (r: Option<Connection>)
        requires
            old(self).wf(),
        ensures
            final(self).wf(),
            old(self).con(sock_key_spec(ip, port)).is_some() ==> r == old(self).con(sock_key_spec(ip, port)),
            old(self).con(sock_key_spec(ip, port)).is_none() ==> (r.is_some() == insert),
            r.is_some() ==> r.unwrap().wf(),
            old(self).con(sock_key_spec(ip, port)).is_none() && insert ==> fresh_listen(r.unwrap(), ip, port, listen_port),
            final(self).con(sock_key_spec(ip, port)).is_none(),
            forall|k: u64| k != sock_key_spec(ip, port) ==> #[trigger] final(self).con(k) == old(self).con(k),
            final(self).records() == old(self).records(),
    {
        let k = sock_key(ip, port);
        match self.sock2con.remove(&k) {
            Some(c) => Some(c),
            None => {
                if insert {
                    let mut c = Connection::new(listen_port, TcpRole::Server, TcpState::Listen);
                    c.dut_ip = ip;
                    c.dut_port = port;
                    Some(c)
                } else {
                    None
                }
            }
        }
    }

    /// Puts a taken connection back under the peer socket `(ip, port)`.
    pub fn put(&mut self, ip: u32, port: u16, c: Connection)
        requires
            old(self).wf(),
            c.wf(),
        ensures
            final(self).wf(),
            final(self).con(sock_key_spec(ip, port)) == Some(c),
            forall|k: u64| k != sock_key_spec(ip, port) ==> #[trigger] final(self).con(k) == old(self).con(k),
            final(self).records() == old(self).records(),
    {
        let k = sock_key(ip, port);
        self.sock2con.insert(k, c);
    }

    /// Ends a taken connection: its record joins the released ones.
    pub fn release(&mut self, c: Connection)
        ensures
            forall|k: u64| #[trigger] final(self).con(k) == old(self).con(k),
            final(self).wf() == old(self).wf(),
            final(self).records() == old(self).records().push(c.con_rec),
    {
        self.c_records.push(c.con_rec);
    }

    /// Hands out the released records and forgets them.
    pub fn fetch_c_records(&mut self) -> (r: Vec<ConRecord>)
        ensures
            r@ == old(self).records(),
            final(self).records().len() == 0,
            forall|k: u64| #[trigger] final(self).con(k) == old(self).con(k),
            final(self).wf() == old(self).wf(),
    {
        let mut r: Vec<ConRecord> = Vec::new();
        std::mem::swap(&mut self.c_records, &mut r);
        r
    }

    /// The connection with key `k` is one whose expired timeout ends it.
    pub open spec fn times_out(&self, k: u64) -> bool {
        self.con(k).is_some() && self.con(k).unwrap().state().rank_spec() < TcpState::Established.rank_spec()
    }

    /// What ending the timed-out connections named by `toks` does: `rel`
    /// lists, once each, the tokens whose connection timed out; each of them
    /// is gone, and exactly their records, with cause Timeout, follow the
    /// records kept before, in that order. Nothing else changes.
    pub open spec fn released_exactly(
        old: ConnectionManagerS,
        new: ConnectionManagerS,
        toks: Seq<u64>,
        rel: Seq<u64>,
    ) -> bool {
        &&& rel.no_duplicates()
        &&& forall|q: u64| rel.contains(q) <==> (toks.contains(q) && old.times_out(q))
        &&& forall|q: u64| #[trigger] new.con(q) == (if rel.contains(q) { None } else { old.con(q) })
        &&& new.records().len() == old.records().len() + rel.len()
        &&& new.records().subrange(0, old.records().len() as int) == old.records()
        &&& forall|i: int|
            0 <= i < rel.len() ==> #[trigger] new.records()[old.records().len() + i] == (ConRecord {
                release_cause: Some(ReleaseCause::Timeout),
                ..old.con(rel[i]).unwrap().con_rec
            })
    }

    pub open spec fn timeouts_released(old: ConnectionManagerS, new: ConnectionManagerS, toks: Seq<u64>) -> bool {
        exists|rel: Seq<u64>| #[trigger] ConnectionManagerS::released_exactly(old, new, toks, rel)
    }

    fn release_if_unestablished(&mut self, k: u64)
        requires
            old(self).wf(),
        ensures
            final(self).wf(),
            forall|k2: u64| k2 != k ==> #[trigger] final(self).con(k2) == old(self).con(k2),
            old(self).times_out(k) ==> final(self).con(k).is_none() && final(self).records()
                == old(self).records().push(
                ConRecord { release_cause: Some(ReleaseCause::Timeout), ..old(self).con(k).unwrap().con_rec },
            ),
            !old(self).times_out(k) ==> final(self).con(k) == old(self).con(k) && final(self).records()
                == old(self).records(),
    {
        let ghost m0 = self.sock2con@;
        let ghost r0 = self.c_records@;
        if let Some(mut c) = self.sock2con.remove(&k) {
            assert(m0[k] == c);
            if c.last_state().rank() < TcpState::Established.rank() {
                c.released(ReleaseCause::Timeout);
                self.c_records.push(c.con_rec);
            } else {
                self.sock2con.insert(k, c);
                assert(self.sock2con@ =~= m0);
            }
        } else {
            assert(self.sock2con@ =~= m0);
        }
    }

    /// Ends the connections whose establishment timeout expired by `now`
    /// and which are still short of Established, with cause Timeout.
    pub fn release_timeouts(&mut self, now: u64, wheel: &mut TimerWheel<u64>)
        requires
            old(self).wf(),
            old(wheel).wf(),
        ensures
            final(self).wf(),
            exists|toks: Seq<u64>|
                #[trigger] TimerWheel::released(*old(wheel), *final(wheel), now, toks)
                    && ConnectionManagerS::timeouts_released(*old(self), *final(self), toks),
            old(wheel).next_deadline() > now ==> forall|k: u64| #[trigger] final(self).con(k) == old(self).con(k),
            old(wheel).next_deadline() > now ==> final(self).records() == old(self).records(),
    {
        let expired = wheel.release(now);
        let ghost toks = expired@;
        let ghost mut rel: Seq<u64> = Seq::empty();
        let mut i: usize = 0;
        assert(self.records().subrange(0, old(self).records().len() as int) =~= old(self).records());
        while i < expired.len()
            invariant
                self.wf(),
                i <= expired@.len(),
                toks == expired@,
                rel.no_duplicates(),
                forall|q: u64| rel.contains(q) <==> (toks.subrange(0, i as int).contains(q) && old(self).times_out(q)),
                forall|q: u64| #[trigger] self.con(q) == (if rel.contains(q) { None } else { old(self).con(q) }),
                self.records().len() == old(self).records().len() + rel.len(),
                self.records().subrange(0, old(self).records().len() as int) == old(self).records(),
                forall|k: int|
                    0 <= k < rel.len() ==> #[trigger] self.records()[old(self).records().len() + k] == (ConRecord {
                        release_cause: Some(ReleaseCause::Timeout),
                        ..old(self).con(rel[k]).unwrap().con_rec
                    }),
            decreases expired@.len() - i,
        {
            let port = expired[i];
            let ghost before = *self;
            let ghost rel0 = rel;
            let ghost sub0 = toks.subrange(0, i as int);
            let ghost sub1 = toks.subrange(0, i as int + 1);
            proof {
                assert(sub1 =~= sub0.push(port));
            }
            self.release_if_unestablished(port);
            proof {
                if before.times_out(port) {
                    assert(!rel0.contains(port));
                    assert(old(self).con(port) == before.con(port));
                    rel = rel0.push(port);
                    assert(rel.no_duplicates()) by {
                        assert forall|a: int, b: int| 0 <= a < b < rel.len() implies rel[a] != rel[b] by {
                            if b == rel0.len() {
                                assert(rel0.contains(rel0[a]));
                            }
                        }
                    }
                    assert forall|q: u64| rel.contains(q) <==> (toks.subrange(0, i as int + 1).contains(q)
                        && old(self).times_out(q)) by {
                        if q == port {
                            assert(rel[rel0.len() as int] == port);
                            assert(sub1[i as int] == port);
                        } else {
                            if rel.contains(q) {
                                let k = choose|k: int| 0 <= k < rel.len() && rel[k] == q;
                                assert(rel0[k] == q);
                            }
                            if sub1.contains(q) {
                                let k = choose|k: int| 0 <= k < sub1.len() && sub1[k] == q;
                                assert(sub0[k] == q);
                            }
                            if rel0.contains(q) {
                                let k = choose|k: int| 0 <= k < rel0.len() && rel0[k] == q;
                                assert(rel[k] == q);
                            }
                        }
                    }
                    assert forall|q: u64| #[trigger] self.con(q) == (if rel.contains(q) { None } else { old(self).con(q) }) by {
                        if q != port {
                            assert(rel.contains(q) == rel0.contains(q)) by {
                                if rel.contains(q) {
                                    let k = choose|k: int| 0 <= k < rel.len() && rel[k] == q;
                                    assert(rel0[k] == q);
                                }
                                if rel0.contains(q) {
                                    let k = choose|k: int| 0 <= k < rel0.len() && rel0[k] == q;
                                    assert(rel[k] == q);
                                }
                            }
                        } else {
                            assert(rel[rel0.len() as int] == port);
                        }
                    }
                    assert(self.records().subrange(0, old(self).records().len() as int) =~= old(self).records()) by {
                        assert(self.records().subrange(0, old(self).records().len() as int) =~= before.records().subrange(
                            0,
                            old(self).records().len() as int,
                        ));
                    }
                    assert forall|k: int| 0 <= k < rel.len() implies #[trigger] self.records()[old(self).records().len() + k]
                        == (ConRecord { release_cause: Some(ReleaseCause::Timeout), ..old(self).con(rel[k]).unwrap().con_rec }) by {
                        if k < rel0.len() {
                            assert(self.records()[old(self).records().len() + k] == before.records()[old(self).records().len() + k]);
                        }
                    }
                } else {
                    assert forall|q: u64| rel.contains(q) <==> (toks.subrange(0, i as int + 1).contains(q)
                        && old(self).times_out(q)) by {
                        if sub1.contains(q) && old(self).times_out(q) && q != port {
                            let k = choose|k: int| 0 <= k < sub1.len() && sub1[k] == q;
                            assert(sub0[k] == q);
                        }
                        if q == port && old(self).times_out(q) {
                            assert(before.con(port) != old(self).con(port));
                        }
                        if sub0.contains(q) {
                            let k = choose|k: int| 0 <= k < sub0.len() && sub0[k] == q;
                            assert(sub1[k] == q);
                        }
                    }
                    assert forall|q: u64| #[trigger] self.con(q) == (if rel.contains(q) { None } else { old(self).con(q) }) by {
                        assert(before.con(q) == (if rel.contains(q) { None } else { old(self).con(q) }));
                    }
                }
            }
            i = i + 1;
        }
        proof {
            assert(toks.subrange(0, i as int) =~= toks);
            assert(ConnectionManagerS::released_exactly(*old(self), *self, toks, rel));
            if toks.len() == 0 {
                if rel.len() > 0 {
                    assert(rel.contains(rel[0]));
                }
                assert(self.records() =~= self.records().subrange(0, old(self).records().len() as int));
            }
        }
    }
}

} // verus!
