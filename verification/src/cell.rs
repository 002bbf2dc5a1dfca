//! Shared per-session state: the packet-id allocator, the in-flight
//! exchange tables for both directions, the subscription registry and the
//! keep-alive deadline.
//!
//! The dispatcher owns this state for the lifetime of the connection; the
//! sink operations mutate it through the same synchronized cell. Packet
//! identifiers are a session-scoped resource: an id is never handed out
//! again while an exchange with that id is still outstanding in the same
//! direction.

use vstd::prelude::*;

use crate::packets::{ProtocolVersion, PublishPacket, QoS, publish_wf};
use crate::subs::Subs;

verus! {

/// Largest valid packet identifier; identifiers run from 1 up to here.
pub const MAX_PACKET_ID: u16 = 65535;

/// Progress of an outbound acknowledged publish exchange.
#[derive(Clone, Copy, PartialEq, Eq, Structural, Debug)]
pub enum OutboundState {
    /// QoS1: the publish was sent, its acknowledgment is awaited.
    AwaitAck,
    /// QoS2: the publish was sent, the receive-acknowledgment is awaited.
    AwaitRec,
    /// QoS2: the release was sent, the complete-acknowledgment is awaited.
    AwaitComp,
}

/// One outstanding outbound exchange, keyed by its packet id.
#[derive(Clone, Copy, PartialEq, Eq, Structural, Debug)]
pub struct OutboundExchange {
    pub id: u16,
    pub state: OutboundState,
}

/// One outstanding inbound QoS2 exchange: the received publish is held
/// back until the release packet arrives, so the application handler runs
/// at most once per exchange.
pub struct InboundExchange {
    pub id: u16,
    pub publish: PublishPacket,
}

/// Error of the packet-id allocator: every id is outstanding.
#[derive(Clone, Copy, PartialEq, Eq, Structural, Debug)]
pub enum IdError {
    Exhausted,
}

/// The keep-alive deadline after traffic at instant `now`: the interval
/// added to the clock, saturating at the clock's maximum.
pub open spec fn spec_deadline_after(now: u64, keep_alive: u16) -> u64 {
    if now + keep_alive > u64::MAX {
        u64::MAX
    } else {
        (now + keep_alive) as u64
    }
}

/// Executable counterpart of [`spec_deadline_after`].
pub fn deadline_after(now: u64, keep_alive: u16) -> (r: u64)
    ensures
        r == spec_deadline_after(now, keep_alive),
{
    if now > u64::MAX - keep_alive as u64 {
        u64::MAX
    } else {
        now + keep_alive as u64
    }
}

/// Whether an outbound exchange with this id is outstanding.
pub open spec fn has_outbound_id(s: Seq<OutboundExchange>, id: u16) -> bool {
    exists|i: int| 0 <= i < s.len() && s[i].id == id
}

/// Whether an inbound exchange with this id is outstanding.
pub open spec fn has_inbound_id(s: Seq<InboundExchange>, id: u16) -> bool {
    exists|i: int| 0 <= i < s.len() && s[i].id == id
}

/// Whether an outbound exchange with this id is outstanding in exactly
/// this progress state.
pub open spec fn has_exchange(s: Seq<OutboundExchange>, id: u16, st: OutboundState) -> bool {
    exists|i: int| 0 <= i < s.len() && s[i] == (OutboundExchange { id, state: st })
}

/// In a table with unique ids, an id determines the progress state of
/// its exchange.
pub proof fn lemma_exchange_state_unique(
    sq: Seq<OutboundExchange>,
    id: u16,
    st1: OutboundState,
    st2: OutboundState,
)
    requires
        forall|i: int, j: int| 0 <= i < j < sq.len() ==> sq[i].id != sq[j].id,
        has_exchange(sq, id, st1),
        has_exchange(sq, id, st2),
    ensures
        st1 == st2,
{
    let i1 = choose|i: int| 0 <= i < sq.len() && sq[i] == (OutboundExchange { id, state: st1 });
    let i2 = choose|i: int| 0 <= i < sq.len() && sq[i] == (OutboundExchange { id, state: st2 });
    if i1 != i2 {
        assert(sq[i1].id == sq[i2].id);
        assert(false);
    }
}

/// The state of one session, from successful handshake to teardown.
pub struct SessionState {
    /// Wire-format revision negotiated for this connection.
    pub version: ProtocolVersion,
    /// Client identifier from the connection request.
    pub client_id: Vec<u8>,
    /// Negotiated keep-alive interval in seconds; 0 disables the timer.
    pub keep_alive: u16,
    /// Whether a previous session was resumed at the handshake.
    pub session_present: bool,
    /// Negotiated bound on concurrently outstanding outbound exchanges.
    pub max_inflight: u16,
    /// Set once at teardown; a closed session accepts no further work.
    pub closed: bool,
    /// Next packet id the allocator tries first.
    pub next_id: u16,
    /// Instant (in the caller's clock ticks) when the keep-alive expires.
    pub deadline: u64,
    /// The subscription registry of this session.
    pub subs: Subs,
    /// Outstanding outbound exchanges, unique by id.
    pub outbound: Vec<OutboundExchange>,
    /// Outstanding inbound QoS2 exchanges, unique by id.
    pub inbound: Vec<InboundExchange>,
}

impl SessionState {
    /// Well-formed session state: ids are valid and unique per direction,
    /// the registry is well formed, and every held-back publish is a
    /// QoS2 publish carrying its own id.
    pub open spec fn wf(self) -> bool {
        &&& 1 <= self.next_id
        &&& self.subs.wf()
        &&& forall|i: int| 0 <= i < self.outbound@.len() ==> 1 <= (#[trigger] self.outbound@[i]).id
        &&& forall|i: int, j: int|
            0 <= i < j < self.outbound@.len() ==> self.outbound@[i].id != self.outbound@[j].id
        &&& forall|i: int| 0 <= i < self.inbound@.len() ==> 1 <= (#[trigger] self.inbound@[i]).id
        &&& forall|i: int, j: int|
            0 <= i < j < self.inbound@.len() ==> self.inbound@[i].id != self.inbound@[j].id
        &&& forall|i: int|
            0 <= i < self.inbound@.len() ==> (#[trigger] self.inbound@[i]).publish.qos
                == QoS::ExactlyOnce && self.inbound@[i].publish.id == Some(self.inbound@[i].id)
                && publish_wf(self.inbound@[i].publish)
    }

    /// All fields untouched by the allocator agree between two states.
    pub open spec fn same_except_alloc(self, other: SessionState) -> bool {
        &&& self.version == other.version
        &&& self.client_id@ == other.client_id@
        &&& self.keep_alive == other.keep_alive
        &&& self.session_present == other.session_present
        &&& self.max_inflight == other.max_inflight
        &&& self.closed == other.closed
        &&& self.deadline == other.deadline
        &&& self.subs == other.subs
        &&& self.inbound@ == other.inbound@
    }

    /// A fresh session, as created on handshake acceptance.
    pub fn new(
        version: ProtocolVersion,
        client_id: Vec<u8>,
        keep_alive: u16,
        session_present: bool,
        max_inflight: u16,
        deadline: u64,
    ) -> (r: SessionState)
        ensures
            r.wf(),
            r.version == version,
            r.client_id@ == client_id@,
            r.keep_alive == keep_alive,
            r.session_present == session_present,
            r.max_inflight == max_inflight,
            !r.closed,
            r.next_id == 1,
            r.deadline == deadline,
            r.subs@.len() == 0,
            r.outbound@.len() == 0,
            r.inbound@.len() == 0,
    {
        SessionState {
            version,
            client_id,
            keep_alive,
            session_present,
            max_inflight,
            closed: false,
            next_id: 1,
            deadline,
            subs: Subs::new(),
            outbound: Vec::new(),
            inbound: Vec::new(),
        }
    }

    /// Index of the outstanding outbound exchange with this id, if any.
    #[verifier::loop_isolation(false)]
    pub fn find_outbound(&self, id: u16) -> (r: Option<usize>)
        ensures
            r matches Some(i) ==> 0 <= i < self.outbound@.len() && self.outbound@[i as int].id
                == id,
            r is None ==> !has_outbound_id(self.outbound@, id),
    {
        let mut i: usize = 0;
        while i < self.outbound.len()
            invariant
                0 <= i <= self.outbound@.len(),
                forall|k: int| 0 <= k < i ==> self.outbound@[k].id != id,
            decreases self.outbound@.len() - i,
        {
            if self.outbound[i].id == id {
                return Some(i);
            }
            i += 1;
        }
        None
    }

    /// The state of the outstanding outbound exchange with this id.
    pub fn outbound_state(&self, id: u16) -> (r: Option<OutboundState>)
        ensures
            r matches Some(st) ==> exists|i: int|
                0 <= i < self.outbound@.len() && self.outbound@[i] == (OutboundExchange {
                    id,
                    state: st,
                }),
            r is None ==> !has_outbound_id(self.outbound@, id),
    {
        match self.find_outbound(id) {
            Some(i) => {
                let st = self.outbound[i].state;
                proof {
                    assert(self.outbound@[i as int] == (OutboundExchange { id, state: st }));
                }
                Some(st)
            },
            None => None,
        }
    }

    /// Index of the outstanding inbound exchange with this id, if any.
    #[verifier::loop_isolation(false)]
    pub fn find_inbound(&self, id: u16) -> (r: Option<usize>)
        ensures
            r matches Some(i) ==> 0 <= i < self.inbound@.len() && self.inbound@[i as int].id == id,
            r is None ==> !has_inbound_id(self.inbound@, id),
    {
        let mut i: usize = 0;
        while i < self.inbound.len()
            invariant
                0 <= i <= self.inbound@.len(),
                forall|k: int| 0 <= k < i ==> self.inbound@[k].id != id,
            decreases self.inbound@.len() - i,
        {
            if self.inbound[i].id == id {
                return Some(i);
            }
            i += 1;
        }
        None
    }

    /// Whether an inbound exchange with this id is outstanding.
    pub fn has_inbound(&self, id: u16) -> (r: bool)
        ensures
            r == has_inbound_id(self.inbound@, id),
    {
        match self.find_inbound(id) {
            Some(i) => {
                proof {
                    assert(has_inbound_id(self.inbound@, id));
                }
                true
            },
            None => false,
        }
    }

    /// Allocate the next free packet id, sequentially with wraparound,
    /// skipping ids still in use, and register an outbound exchange under
    /// it. Fails exactly when every id is outstanding.
    #[verifier::loop_isolation(false)]
    pub fn alloc_packet_id(&mut self, state: OutboundState) -> (r: Result<u16, IdError>)
        requires
            old(self).wf(),
        ensures
            final(self).wf(),
            final(self).same_except_alloc(*old(self)),
            r matches Ok(id) ==> {
                &&& 1 <= id
                &&& !has_outbound_id(old(self).outbound@, id)
                &&& final(self).outbound@ == old(self).outbound@.push(
                    (OutboundExchange { id, state }),
                )
                &&& final(self).next_id == (if id == MAX_PACKET_ID {
                    1u16
                } else {
                    (id + 1) as u16
                })
            },
            r is Err ==> *final(self) == *old(self) && (forall|id: u16|
                1 <= id ==> has_outbound_id(old(self).outbound@, id)),
    {
        let start = self.next_id;
        let mut c: u32 = start as u32;
        while c <= MAX_PACKET_ID as u32
            invariant
                start as u32 <= c <= MAX_PACKET_ID as u32 + 1,
                *self == *old(self),
                forall|id: u16| start <= id && (id as u32) < c ==> has_outbound_id(
                    self.outbound@,
                    id,
                ),
            decreases MAX_PACKET_ID as u32 + 1 - c,
        {
            let cand: u16 = c as u16;
            if self.find_outbound(cand).is_none() {
                return Ok(self.register_fresh(cand, state));
            }
            c += 1;
        }
        let mut d: u32 = 1;
        while d < start as u32
            invariant
                1 <= d <= start as u32,
                *self == *old(self),
                forall|id: u16| start <= id ==> has_outbound_id(self.outbound@, id),
                forall|id: u16| 1 <= id && (id as u32) < d ==> has_outbound_id(self.outbound@, id),
            decreases start as u32 - d,
        {
            let cand: u16 = d as u16;
            if self.find_outbound(cand).is_none() {
                return Ok(self.register_fresh(cand, state));
            }
            d += 1;
        }
        Err(IdError::Exhausted)
    }

    /// Register an outbound exchange under a fresh id and advance the
    /// allocator cursor past it.
    fn register_fresh(&mut self, id: u16, state: OutboundState) -> (r: u16)
        requires
            old(self).wf(),
            1 <= id,
            !has_outbound_id(old(self).outbound@, id),
        ensures
            r == id,
            final(self).wf(),
            final(self).same_except_alloc(*old(self)),
            final(self).outbound@ == old(self).outbound@.push((OutboundExchange { id, state })),
            final(self).next_id == (if id == MAX_PACKET_ID {
                1u16
            } else {
                (id + 1) as u16
            }),
    {
        self.outbound.push(OutboundExchange { id, state });
        self.next_id = if id == MAX_PACKET_ID {
            1
        } else {
            id + 1
        };
        proof {
            assert forall|i: int, j: int|
                0 <= i < j < self.outbound@.len() implies self.outbound@[i].id
                != self.outbound@[j].id by {
                if j == self.outbound@.len() - 1 {
                    assert(!has_outbound_id(old(self).outbound@, id));
                    assert(old(self).outbound@[i].id != id);
                }
            }
        }
        id
    }

    /// Remove and return the outstanding outbound exchange with this id.
    pub fn take_outbound(&mut self, id: u16) -> (r: Option<OutboundState>)
        requires
            old(self).wf(),
        ensures
            final(self).wf(),
            r is None ==> *final(self) == *old(self) && !has_outbound_id(old(self).outbound@, id),
            r matches Some(st) ==> {
                &&& final(self).same_except_alloc(*old(self))
                &&& final(self).next_id == old(self).next_id
                &&& exists|i: int|
                    0 <= i < old(self).outbound@.len() && old(self).outbound@[i]
                        == (OutboundExchange { id, state: st }) && final(self).outbound@
                        == old(self).outbound@.remove(i)
            },
    {
        match self.find_outbound(id) {
            Some(i) => {
                let ghost oldv = self.outbound@;
                let e = self.outbound.remove(i);
                proof {
                    assert(oldv[i as int] == (OutboundExchange { id, state: e.state }));
                    assert forall|a: int, b: int|
                        0 <= a < b < self.outbound@.len() implies self.outbound@[a].id
                        != self.outbound@[b].id by {
                        assert(self.outbound@ == oldv.remove(i as int));
                    }
                }
                Some(e.state)
            },
            None => None,
        }
    }

    /// Re-register an exchange under an id that is not outstanding, used
    /// to advance a QoS2 exchange while keeping its id.
    pub fn register_outbound(&mut self, id: u16, state: OutboundState)
        requires
            old(self).wf(),
            1 <= id,
            !has_outbound_id(old(self).outbound@, id),
        ensures
            final(self).wf(),
            final(self).same_except_alloc(*old(self)),
            final(self).next_id == old(self).next_id,
            final(self).outbound@ == old(self).outbound@.push((OutboundExchange { id, state })),
    {
        self.outbound.push(OutboundExchange { id, state });
        proof {
            assert forall|i: int, j: int|
                0 <= i < j < self.outbound@.len() implies self.outbound@[i].id
                != self.outbound@[j].id by {
                if j == self.outbound@.len() - 1 {
                    assert(old(self).outbound@[i].id != id);
                }
            }
        }
    }

    /// Record an inbound QoS2 exchange, holding the publish back for the
    /// release packet.
    pub fn register_inbound(&mut self, id: u16, publish: PublishPacket)
        requires
            old(self).wf(),
            1 <= id,
            !has_inbound_id(old(self).inbound@, id),
            publish.qos == QoS::ExactlyOnce,
            publish.id == Some(id),
            publish_wf(publish),
        ensures
            final(self).wf(),
            final(self).inbound@ == old(self).inbound@.push((InboundExchange { id, publish })),
            final(self).outbound@ == old(self).outbound@,
            final(self).next_id == old(self).next_id,
            final(self).subs == old(self).subs,
            final(self).closed == old(self).closed,
            final(self).deadline == old(self).deadline,
            final(self).version == old(self).version,
            final(self).keep_alive == old(self).keep_alive,
            final(self).max_inflight == old(self).max_inflight,
            final(self).session_present == old(self).session_present,
            final(self).client_id@ == old(self).client_id@,
    {
        self.inbound.push(InboundExchange { id, publish });
        proof {
            assert forall|i: int, j: int|
                0 <= i < j < self.inbound@.len() implies self.inbound@[i].id
                != self.inbound@[j].id by {
                if j == self.inbound@.len() - 1 {
                    assert(old(self).inbound@[i].id != id);
                }
            }
        }
    }

    /// Remove and return the held-back publish of the inbound exchange
    /// with this id.
    pub fn take_inbound(&mut self, id: u16) -> (r: Option<PublishPacket>)
        requires
            old(self).wf(),
        ensures
            final(self).wf(),
            r is None ==> *final(self) == *old(self) && !has_inbound_id(old(self).inbound@, id),
            r matches Some(p) ==> {
                &&& p.qos == QoS::ExactlyOnce
                &&& p.id == Some(id)
                &&& publish_wf(p)
                &&& final(self).outbound@ == old(self).outbound@
                &&& final(self).next_id == old(self).next_id
                &&& final(self).subs == old(self).subs
                &&& final(self).closed == old(self).closed
                &&& final(self).deadline == old(self).deadline
                &&& final(self).version == old(self).version
                &&& final(self).keep_alive == old(self).keep_alive
                &&& final(self).max_inflight == old(self).max_inflight
                &&& final(self).session_present == old(self).session_present
                &&& final(self).client_id@ == old(self).client_id@
                &&& exists|i: int|
                    0 <= i < old(self).inbound@.len() && old(self).inbound@[i]
                        == (InboundExchange { id, publish: p }) && final(self).inbound@
                        == old(self).inbound@.remove(i)
            },
    {
        match self.find_inbound(id) {
            Some(i) => {
                let ghost oldv = self.inbound@;
                let e = self.inbound.remove(i);
                proof {
                    assert(oldv[i as int] == (InboundExchange { id, publish: e.publish }));
                    assert forall|a: int, b: int|
                        0 <= a < b < self.inbound@.len() implies self.inbound@[a].id
                        != self.inbound@[b].id by {
                        assert(self.inbound@ == oldv.remove(i as int));
                    }
                }
                Some(e.publish)
            },
            None => None,
        }
    }

    /// Tear the session down: drop every in-flight exchange, mark the
    /// session closed, and hand back the ids of the outbound exchanges
    /// whose outcomes were still pending.
    #[verifier::loop_isolation(false)]
    pub fn release_all(&mut self) -> (pending: Vec<u16>)
        requires
            old(self).wf(),
        ensures
            final(self).wf(),
            final(self).closed,
            final(self).outbound@.len() == 0,
            final(self).inbound@.len() == 0,
            pending@ == old(self).outbound@.map_values(|e: OutboundExchange| e.id),
            final(self).subs == old(self).subs,
            final(self).version == old(self).version,
            final(self).client_id@ == old(self).client_id@,
    {
        let mut pending: Vec<u16> = Vec::new();
        let mut i: usize = 0;
        proof {
            assert(pending@ =~= old(self).outbound@.map_values(
                |e: OutboundExchange| e.id,
            ).take(0));
        }
        while i < self.outbound.len()
            invariant
                0 <= i <= self.outbound@.len(),
                *self == *old(self),
                pending@ == old(self).outbound@.map_values(|e: OutboundExchange| e.id).take(
                    i as int,
                ),
            decreases self.outbound@.len() - i,
        {
            pending.push(self.outbound[i].id);
            proof {
                let m = old(self).outbound@.map_values(|e: OutboundExchange| e.id);
                assert(m.take(i + 1 as int) =~= m.take(i as int).push(m[i as int]));
            }
            i += 1;
        }
        proof {
            let m = old(self).outbound@.map_values(|e: OutboundExchange| e.id);
            assert(m.take(m.len() as int) =~= m);
        }
        self.outbound.clear();
        self.inbound.clear();
        self.closed = true;
        pending
    }
}

/// No packet id is held by two concurrently-outstanding outbound
/// exchanges of one well-formed session.
pub proof fn lemma_outbound_ids_unique(s: SessionState, i: int, j: int)
    requires
        s.wf(),
        0 <= i < s.outbound@.len(),
        0 <= j < s.outbound@.len(),
        i != j,
    ensures
        s.outbound@[i].id != s.outbound@[j].id,
{
}

/// No packet id is held by two concurrently-outstanding inbound
/// exchanges of one well-formed session.
pub proof fn lemma_inbound_ids_unique(s: SessionState, i: int, j: int)
    requires
        s.wf(),
        0 <= i < s.inbound@.len(),
        0 <= j < s.inbound@.len(),
        i != j,
    ensures
        s.inbound@[i].id != s.inbound@[j].id,
{
}

} // verus!
