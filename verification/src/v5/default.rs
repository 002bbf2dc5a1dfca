//! Default application services for the revision-5 engine: the fallback
//! Publish service used when the application wires up no business logic,
//! and the fallback Control service that acknowledges every control
//! packet in the standard way.
//!
//! With these defaults, inbound publishes are accepted at the protocol
//! level (so the peer still receives its acknowledgments) but dropped,
//! and subscribe/unsubscribe requests are acknowledged as granted or
//! removed without further routing action.

use vstd::prelude::*;

use crate::packets::{ControlPacket, ControlResult, GrantModel, HandlerOutcome, PublishPacket};

verus! {

/// Not-implemented publish service: accepts and drops every publish.
pub struct NotImplemented {}

impl Default for NotImplemented {
    /// The (stateless) default instance.
    fn default() -> (r: NotImplemented)
        ensures
            r == (NotImplemented {}),
    {
        NotImplemented {}
    }
}

impl NotImplemented {
    /// Accept the publish at the protocol level and drop it: the
    /// outcome is always success, so the peer receives the positive
    /// acknowledgment its quality of service calls for.
    pub fn call(&self, publish: &PublishPacket) -> (r: HandlerOutcome)
        ensures
            r == HandlerOutcome::Success,
    {
        HandlerOutcome::Success
    }
}

/// Default control service: every control packet is answered with its
/// standard acknowledgment, subscriptions are granted as requested and
/// removals acknowledged, without taking routing action.
pub struct DefaultControlService {}

impl Default for DefaultControlService {
    /// The (stateless) default instance.
    fn default() -> (r: DefaultControlService)
        ensures
            r == (DefaultControlService {}),
    {
        DefaultControlService {}
    }
}

impl DefaultControlService {
    /// Map a control packet to its standard acknowledgment.
    pub fn call(&self, pkt: ControlPacket) -> (r: ControlResult)
        ensures
            pkt is Auth ==> r == ControlResult::AuthAck,
            pkt is Ping ==> r == ControlResult::PingAck,
            pkt is Disconnect ==> r == ControlResult::DisconnectAck,
            pkt is Closed ==> r == ControlResult::ClosedAck,
            pkt matches ControlPacket::Subscribe(subs) ==> (r
                matches ControlResult::SubscribeAck { id, grants } && id == subs.id
                && grants@.len() == subs.requests@.len() && forall|k: int|
                0 <= k < subs.requests@.len() ==> (#[trigger] grants@[k])@ == (GrantModel {
                    filter: subs.requests@[k].filter@,
                    qos: Some(subs.requests@[k].qos),
                    options: subs.requests@[k].options,
                })),
            pkt matches ControlPacket::Unsubscribe(unsubs) ==> (r
                matches ControlResult::UnsubscribeAck { id, filters } && id == unsubs.id
                && filters == unsubs.filters),
    {
        match pkt {
            ControlPacket::Auth(auth) => auth.ack(),
            ControlPacket::Ping(ping) => ping.ack(),
            ControlPacket::Disconnect(disc) => disc.ack(),
            ControlPacket::Subscribe(subs) => subs.ack(),
            ControlPacket::Unsubscribe(unsubs) => unsubs.ack(),
            ControlPacket::Closed(msg) => msg.ack(),
        }
    }
}

} // verus!
