//! TCP states, event statistics and the per-connection record.
use vstd::prelude::*;

verus! {

/// The states of a half connection, in the order in which they are compared.
#[derive(Clone, Copy, Debug, PartialEq, Eq, Structural)]
pub enum TcpState {
    Listen,
    SynReceived,
    SynSent,
    Established,
    CloseWait,
    FinWait1,
    FinWait2,
    LastAck,
    Closing,
    Closed,
}

impl TcpState {
    pub open spec fn rank_spec(self) -> nat {
        match self {
            TcpState::Listen => 0,
            TcpState::SynReceived => 1,
            TcpState::SynSent => 2,
            TcpState::Established => 3,
            TcpState::CloseWait => 4,
            TcpState::FinWait1 => 5,
            TcpState::FinWait2 => 6,
            TcpState::LastAck => 7,
            TcpState::Closing => 8,
            TcpState::Closed => 9,
        }
    }

    /// Position of the state in the comparison order.
    pub fn rank(&self) -> (r: u8)
        ensures
            r == self.rank_spec(),
    {
        match self {
            TcpState::Listen => 0,
            TcpState::SynReceived => 1,
            TcpState::SynSent => 2,
            TcpState::Established => 3,
            TcpState::CloseWait => 4,
            TcpState::FinWait1 => 5,
            TcpState::FinWait2 => 6,
            TcpState::LastAck => 7,
            TcpState::Closing => 8,
            TcpState::Closed => 9,
        }
    }

    /// `self` comes at or after `other` in the state order.
    pub fn at_least(&self, other: TcpState) -> (r: bool)
        ensures
            r == (self.rank_spec() >= other.rank_spec()),
    {
        self.rank() >= other.rank()
    }
}

#[derive(Clone, Copy, Debug, PartialEq, Eq, Structural)]
pub enum TcpRole {
    Client,
    Server,
}

#[derive(Clone, Copy, Debug, PartialEq, Eq, Structural)]
pub enum ReleaseCause {
    Unknown,
    Timeout,
    PassiveClose,
    ActiveClose,
    PassiveRst,
    ActiveRst,
}

/// The kinds of TCP events that are counted.
#[derive(Clone, Copy, Debug, PartialEq, Eq, Structural)]
pub enum TcpStatistics {
    SentSyn,
    SentSynAck,
    SentSynAck2,
    SentFin,
    SentFinAck,
    SentFinAck2,
    RecvSyn,
    RecvSynAck,
    RecvSynAck2,
    RecvFin,
    RecvFinAck,
    RecvFinAck2,
    RecvRst,
    Payload,
    Unexpected,
}

pub const NR_TCP_STATISTICS: usize = 15;

impl TcpStatistics {
    pub open spec fn index_spec(self) -> int {
        match self {
            TcpStatistics::SentSyn => 0,
            TcpStatistics::SentSynAck => 1,
            TcpStatistics::SentSynAck2 => 2,
            TcpStatistics::SentFin => 3,
            TcpStatistics::SentFinAck => 4,
            TcpStatistics::SentFinAck2 => 5,
            TcpStatistics::RecvSyn => 6,
            TcpStatistics::RecvSynAck => 7,
            TcpStatistics::RecvSynAck2 => 8,
            TcpStatistics::RecvFin => 9,
            TcpStatistics::RecvFinAck => 10,
            TcpStatistics::RecvFinAck2 => 11,
            TcpStatistics::RecvRst => 12,
            TcpStatistics::Payload => 13,
            TcpStatistics::Unexpected => 14,
        }
    }

    pub fn index(&self) -> (r: usize)
        ensures
            r == self.index_spec(),
            r < NR_TCP_STATISTICS,
    {
        match self {
            TcpStatistics::SentSyn => 0,
            TcpStatistics::SentSynAck => 1,
            TcpStatistics::SentSynAck2 => 2,
            TcpStatistics::SentFin => 3,
            TcpStatistics::SentFinAck => 4,
            TcpStatistics::SentFinAck2 => 5,
            TcpStatistics::RecvSyn => 6,
            TcpStatistics::RecvSynAck => 7,
            TcpStatistics::RecvSynAck2 => 8,
            TcpStatistics::RecvFin => 9,
            TcpStatistics::RecvFinAck => 10,
            TcpStatistics::RecvFinAck2 => 11,
            TcpStatistics::RecvRst => 12,
            TcpStatistics::Payload => 13,
            TcpStatistics::Unexpected => 14,
        }
    }
}

/// One counter for each kind of `TcpStatistics`.
#[derive(Clone, Debug)]
pub struct TcpCounter {
    counts: Vec<u64>,
}

/// A counter after one more event; it stays at its maximum once there.
pub open spec fn bump(n: u64) -> u64 {
    if n < u64::MAX {
        (n + 1) as u64
    } else {
        n
    }
}

impl TcpCounter {
    pub closed spec fn wf(&self) -> bool {
        self.counts@.len() == NR_TCP_STATISTICS
    }

    pub closed spec fn spec_get(&self, s: TcpStatistics) -> u64 {
        self.counts@[s.index_spec()]
    }

    /// The counter after one more event of kind `s`.
    pub open spec fn bumped(old: TcpCounter, new: TcpCounter, s: TcpStatistics) -> bool {
        &&& new.wf()
        &&& new.spec_get(s) == bump(old.spec_get(s))
        &&& forall|t: TcpStatistics| t != s ==> #[trigger] new.spec_get(t) == old.spec_get(t)
    }

    /// The counter after an event of kind `s1`, then one of kind `s2`.
    pub open spec fn bumped_twice(old: TcpCounter, new: TcpCounter, s1: TcpStatistics, s2: TcpStatistics) -> bool {
        exists|m: TcpCounter| #[trigger] TcpCounter::bumped(old, m, s1) && TcpCounter::bumped(m, new, s2)
    }

    pub fn new() -> (r: TcpCounter)
        ensures
            r.wf(),
            forall|s: TcpStatistics| #[trigger] r.spec_get(s) == 0,
    {
        let mut counts: Vec<u64> = Vec::new();
        let mut i: usize = 0;
        while i < NR_TCP_STATISTICS
            invariant
                i <= NR_TCP_STATISTICS,
                counts@.len() == i,
                forall|k: int| 0 <= k < i ==> counts@[k] == 0,
            decreases NR_TCP_STATISTICS - i,
        {
            counts.push(0);
            i = i + 1;
        }
        TcpCounter { counts }
    }

    pub fn get(&self, s: TcpStatistics) -> (r: u64)
        requires
            self.wf(),
        ensures
            r == self.spec_get(s),
    {
        self.counts[s.index()]
    }

    /// Counts one more event of kind `s`.
    pub fn inc(&mut self, s: TcpStatistics)
        requires
            old(self).wf(),
        ensures
            TcpCounter::bumped(*old(self), *final(self), s),
    {
        let i = s.index();
        let n = self.counts[i];
        if n < u64::MAX {
            self.counts.set(i, n + 1);
        }
        assert forall|t: TcpStatistics| t != s implies #[trigger] self.spec_get(t) == old(self).spec_get(t) by {
            assert(t.index_spec() != s.index_spec());
        }
    }
}

/// What is recorded of a connection for the supervisor.
#[derive(Clone, Debug)]
pub struct ConRecord {
    /// Every state the connection went through; the last one is the current.
    pub states: Vec<TcpState>,
    pub server_index: usize,
    pub payload_packets: usize,
    pub release_cause: Option<ReleaseCause>,
    pub uuid: Option<[u8; 16]>,
    pub client_port: u16,
}

impl ConRecord {
    pub fn new(first: TcpState) -> (r: ConRecord)
        ensures
            r.states@ == seq![first],
            r.server_index == 0,
            r.payload_packets == 0,
            r.release_cause.is_none(),
            r.uuid.is_none(),
            r.client_port == 0,
    {
        let mut states: Vec<TcpState> = Vec::new();
        states.push(first);
        ConRecord { states, server_index: 0, payload_packets: 0, release_cause: None, uuid: None, client_port: 0 }
    }

    pub open spec fn last_state_spec(&self) -> TcpState {
        self.states@.last()
    }

    /// The current state.
    pub fn last_state(&self) -> (r: TcpState)
        requires
            self.states@.len() >= 1,
        ensures
            r == self.last_state_spec(),
    {
        self.states[self.states.len() - 1]
    }

    pub fn push_state(&mut self, s: TcpState)
        ensures
            final(self).states@ == old(self).states@.push(s),
            final(self).server_index == old(self).server_index,
            final(self).payload_packets == old(self).payload_packets,
            final(self).release_cause == old(self).release_cause,
            final(self).uuid == old(self).uuid,
            final(self).client_port == old(self).client_port,
    {
        self.states.push(s);
    }
}

} // verus!
