//! Operations of the externally-held session handle: enqueue an outbound
//! publish, manage client-role subscriptions, all against the shared
//! session cell.
//!
//! Every operation is a plain state transition on [`SessionState`]; the
//! surrounding code performs the returned packet writes. An operation on
//! a closed session fails immediately with [`SinkError::Closed`] and
//! changes nothing, so a caller is never left waiting on a dead session.

use vstd::prelude::*;

use crate::cell::{
    OutboundExchange, OutboundState, SessionState, deadline_after, has_outbound_id,
    spec_deadline_after,
};
use crate::packets::{PublishPacket, QoS, SubscriptionOptions};
use crate::subs::{spec_add, spec_filter_valid, spec_remove};

verus! {

/// Why a sink operation could not be performed.
#[derive(Clone, Copy, PartialEq, Eq, Structural, Debug)]
pub enum SinkError {
    /// The session is closed; no further operation will ever succeed.
    Closed,
    /// The negotiated bound on outstanding outbound exchanges is reached.
    InFlightFull,
    /// Every packet id is allocated to an outstanding outbound exchange.
    Exhausted,
    /// The topic filter is malformed.
    InvalidFilter,
}

/// The outcome a pending sink publish finally resolves to.
#[derive(Clone, Copy, PartialEq, Eq, Structural, Debug)]
pub enum SinkOutcome {
    /// The expected final acknowledgment arrived.
    Acknowledged,
    /// The session was torn down while the exchange was outstanding.
    SessionClosed,
}

/// The in-flight state a fresh outbound publish starts in, by its
/// quality of service.
pub open spec fn initial_outbound_state(qos: QoS) -> OutboundState {
    if qos == QoS::ExactlyOnce {
        OutboundState::AwaitRec
    } else {
        OutboundState::AwaitAck
    }
}

impl SessionState {
    /// Enqueue an outbound publish. For QoS1/QoS2 this allocates a packet
    /// id, registers the in-flight exchange and resets the keep-alive
    /// deadline; the returned id resolves when the matching acknowledgment
    /// arrives through the dispatcher. On a closed session it fails at
    /// once with `Closed`.
    pub fn publish(
        &mut self,
        topic: Vec<u8>,
        payload: Vec<u8>,
        qos: QoS,
        retain: bool,
        now: u64,
    ) -> (r: Result<(Option<u16>, PublishPacket), SinkError>)
        requires
            old(self).wf(),
        ensures
            final(self).wf(),
            r == Err::<(Option<u16>, PublishPacket), SinkError>(SinkError::Closed) <==> old(
                self,
            ).closed,
            r is Err ==> *final(self) == *old(self),
            r is Ok <==> !old(self).closed && (qos == QoS::AtMostOnce || (old(
                self,
            ).outbound@.len() < old(self).max_inflight && exists|id: u16|
                1 <= id && !has_outbound_id(old(self).outbound@, id))),
            !old(self).closed && qos != QoS::AtMostOnce && old(self).outbound@.len() >= old(
                self,
            ).max_inflight ==> r == Err::<(Option<u16>, PublishPacket), SinkError>(
                SinkError::InFlightFull,
            ),
            r matches Ok((oid, p)) ==> {
                &&& p.topic@ == topic@
                &&& p.payload@ == payload@
                &&& p.qos == qos
                &&& p.retain == retain
                &&& !p.dup
                &&& p.id == oid
                &&& (oid is None <==> qos == QoS::AtMostOnce)
                &&& final(self).deadline == spec_deadline_after(now, old(self).keep_alive)
                &&& final(self).subs == old(self).subs
                &&& final(self).inbound@ == old(self).inbound@
                &&& final(self).closed == old(self).closed
                &&& final(self).keep_alive == old(self).keep_alive
                &&& final(self).max_inflight == old(self).max_inflight
                &&& final(self).version == old(self).version
                &&& final(self).client_id@ == old(self).client_id@
            },
            r matches Ok((oid, p)) ==> qos == QoS::AtMostOnce ==> final(self).outbound@ == old(
                self,
            ).outbound@ && final(self).next_id == old(self).next_id,
            r matches Ok((oid, p)) ==> oid matches Some(id) ==> {
                &&& 1 <= id
                &&& !has_outbound_id(old(self).outbound@, id)
                &&& final(self).outbound@ == old(self).outbound@.push(
                    (OutboundExchange { id, state: initial_outbound_state(qos) }),
                )
            },
    {
        if self.closed {
            return Err(SinkError::Closed);
        }
        if qos == QoS::AtMostOnce {
            let packet = PublishPacket { id: None, topic, payload, qos, retain, dup: false };
            self.deadline = deadline_after(now, self.keep_alive);
            return Ok((None, packet));
        }
        if self.outbound.len() >= self.max_inflight as usize {
            return Err(SinkError::InFlightFull);
        }
        let state = if qos == QoS::ExactlyOnce {
            OutboundState::AwaitRec
        } else {
            OutboundState::AwaitAck
        };
        match self.alloc_packet_id(state) {
            Ok(id) => {
                let packet = PublishPacket {
                    id: Some(id),
                    topic,
                    payload,
                    qos,
                    retain,
                    dup: false,
                };
                self.deadline = deadline_after(now, self.keep_alive);
                Ok((Some(id), packet))
            },
            Err(_) => {
                proof {
                    assert forall|id: u16| 1 <= id implies has_outbound_id(
                        old(self).outbound@,
                        id,
                    ) by {}
                }
                Err(SinkError::Exhausted)
            },
        }
    }

    /// Register a client-role subscription on this session's registry.
    /// The grant is the requested quality of service; a malformed filter
    /// or a closed session is refused.
    pub fn subscribe(
        &mut self,
        filter: Vec<u8>,
        qos: QoS,
        options: SubscriptionOptions,
        now: u64,
    ) -> (r: Result<QoS, SinkError>)
        requires
            old(self).wf(),
        ensures
            final(self).wf(),
            r == Err::<QoS, SinkError>(SinkError::Closed) <==> old(self).closed,
            !old(self).closed && !spec_filter_valid(filter@) ==> r == Err::<QoS, SinkError>(
                SinkError::InvalidFilter,
            ),
            r is Err ==> *final(self) == *old(self),
            r is Ok <==> !old(self).closed && spec_filter_valid(filter@),
            r matches Ok(granted) ==> {
                &&& granted == qos
                &&& final(self).subs@ == spec_add(
                    old(self).subs@,
                    (crate::subs::EntryModel { filter: filter@, qos: qos, options: options }),
                )
                &&& final(self).deadline == spec_deadline_after(now, old(self).keep_alive)
                &&& final(self).outbound@ == old(self).outbound@
                &&& final(self).inbound@ == old(self).inbound@
                &&& final(self).next_id == old(self).next_id
                &&& final(self).closed == old(self).closed
            },
    {
        if self.closed {
            return Err(SinkError::Closed);
        }
        if !crate::subs::filter_valid(filter.as_slice()) {
            return Err(SinkError::InvalidFilter);
        }
        let res = self.subs.add(filter, qos, options);
        proof {
            assert(res is Ok);
        }
        self.deadline = deadline_after(now, self.keep_alive);
        Ok(qos)
    }

    /// Remove a client-role subscription from this session's registry.
    /// Returns whether the filter was registered; a closed session is
    /// refused.
    pub fn unsubscribe(&mut self, filter: &[u8], now: u64) -> (r: Result<bool, SinkError>)
        requires
            old(self).wf(),
        ensures
            final(self).wf(),
            r == Err::<bool, SinkError>(SinkError::Closed) <==> old(self).closed,
            r is Ok <==> !old(self).closed,
            r is Err ==> *final(self) == *old(self),
            r matches Ok(removed) ==> {
                &&& (removed <==> exists|i: int|
                    0 <= i < old(self).subs@.len() && old(self).subs@[i].filter == filter@)
                &&& final(self).subs@ == spec_remove(old(self).subs@, filter@)
                &&& final(self).deadline == spec_deadline_after(now, old(self).keep_alive)
                &&& final(self).outbound@ == old(self).outbound@
                &&& final(self).inbound@ == old(self).inbound@
                &&& final(self).next_id == old(self).next_id
                &&& final(self).closed == old(self).closed
            },
    {
        if self.closed {
            return Err(SinkError::Closed);
        }
        let removed = self.subs.remove(filter);
        self.deadline = deadline_after(now, self.keep_alive);
        Ok(removed)
    }
}

} // verus!
