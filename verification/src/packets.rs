//! Decoded packet values and the small enums shared by the whole engine.
//!
//! The codec (outside this crate) turns transport bytes into these typed
//! values and back; the engine only ever sees the typed form.

use vstd::prelude::*;

verus! {

/// Wire-format revision of the protocol spoken on a connection.
#[derive(Clone, Copy, PartialEq, Eq, Structural, Debug)]
pub enum ProtocolVersion {
    V3,
    V5,
}

/// Delivery guarantee of a publish: at-most-once, at-least-once, exactly-once.
#[derive(Clone, Copy, PartialEq, Eq, Structural, Debug)]
pub enum QoS {
    AtMostOnce,
    AtLeastOnce,
    ExactlyOnce,
}

/// Numeric level of a quality-of-service value, for comparisons.
pub open spec fn spec_qos_level(q: QoS) -> int {
    match q {
        QoS::AtMostOnce => 0,
        QoS::AtLeastOnce => 1,
        QoS::ExactlyOnce => 2,
    }
}

/// Executable counterpart of [`spec_qos_level`].
pub fn qos_level(q: QoS) -> (n: u8)
    ensures
        n as int == spec_qos_level(q),
{
    match q {
        QoS::AtMostOnce => 0,
        QoS::AtLeastOnce => 1,
        QoS::ExactlyOnce => 2,
    }
}

/// The greater of two quality-of-service values.
pub open spec fn spec_qos_max(a: QoS, b: QoS) -> QoS {
    if spec_qos_level(a) >= spec_qos_level(b) {
        a
    } else {
        b
    }
}

/// Executable counterpart of [`spec_qos_max`].
pub fn qos_max(a: QoS, b: QoS) -> (r: QoS)
    ensures
        r == spec_qos_max(a, b),
{
    if qos_level(a) >= qos_level(b) {
        a
    } else {
        b
    }
}

/// Reason attached to a handshake rejection or acceptance.
#[derive(Clone, Copy, PartialEq, Eq, Structural, Debug)]
pub enum ConnectReason {
    Accepted,
    UnacceptableProtocolVersion,
    ClientIdentifierRejected,
    ServerUnavailable,
    BadCredentials,
    NotAuthorized,
}

/// Why a session left the `Established` state.
#[derive(Clone, Copy, PartialEq, Eq, Structural, Debug)]
pub enum CloseReason {
    KeepAliveTimeout,
    HandshakeTimeout,
    HandshakeRejected,
    ProtocolViolation,
    DecodeError,
    TransportError,
    PeerDisconnect,
    ApplicationClose,
}

/// Outcome of an application publish handler, surfaced on the wire as a
/// positive or negative acknowledgment reason.
#[derive(Clone, Copy, PartialEq, Eq, Structural, Debug)]
pub enum HandlerOutcome {
    Success,
    Failure,
}

/// Reason carried by an acknowledgment packet.
#[derive(Clone, Copy, PartialEq, Eq, Structural, Debug)]
pub enum AckReason {
    Success,
    UnspecifiedError,
    IdNotFound,
}

/// Acknowledgment reason for a handler outcome.
pub open spec fn spec_ack_reason(outcome: HandlerOutcome) -> AckReason {
    match outcome {
        HandlerOutcome::Success => AckReason::Success,
        HandlerOutcome::Failure => AckReason::UnspecifiedError,
    }
}

/// Executable counterpart of [`spec_ack_reason`].
pub fn ack_reason(outcome: HandlerOutcome) -> (r: AckReason)
    ensures
        r == spec_ack_reason(outcome),
{
    match outcome {
        HandlerOutcome::Success => AckReason::Success,
        HandlerOutcome::Failure => AckReason::UnspecifiedError,
    }
}

/// Decoded connection-request packet, as handed to the Connect handler.
#[derive(Clone, Debug)]
pub struct ConnectPacket {
    pub version: ProtocolVersion,
    pub client_id: Vec<u8>,
    pub clean_start: bool,
    pub keep_alive: u16,
    pub username: Option<Vec<u8>>,
    pub password: Option<Vec<u8>>,
}

/// Decoded publish packet. `id` is `Some` exactly for QoS1/QoS2 publishes.
#[derive(Clone, Debug)]
pub struct PublishPacket {
    pub id: Option<u16>,
    pub topic: Vec<u8>,
    pub payload: Vec<u8>,
    pub qos: QoS,
    pub retain: bool,
    pub dup: bool,
}

/// A publish packet is well formed when it carries a packet id exactly
/// for the acknowledged quality-of-service levels.
pub open spec fn publish_wf(p: PublishPacket) -> bool {
    &&& (p.id is Some <==> p.qos != QoS::AtMostOnce)
    &&& (p.id matches Some(id) ==> 1 <= id)
}

/// One filter of a subscribe request: the topic filter, the requested
/// quality of service, and the revision-5 subscription options.
#[derive(Clone, Debug)]
pub struct SubscriptionRequest {
    pub filter: Vec<u8>,
    pub qos: QoS,
    pub options: SubscriptionOptions,
}

/// Revision-5 subscription options; all-false/default on revision 3.
#[derive(Clone, Copy, PartialEq, Eq, Structural, Debug)]
pub struct SubscriptionOptions {
    pub no_local: bool,
    pub retain_as_published: bool,
    pub retain_handling: RetainHandling,
}

/// Revision-5 retain-handling option of a subscription.
#[derive(Clone, Copy, PartialEq, Eq, Structural, Debug)]
pub enum RetainHandling {
    SendAtSubscribe,
    SendAtNewSubscribe,
    DoNotSend,
}

impl SubscriptionOptions {
    /// The options a revision-3 subscription implies.
    pub fn plain() -> (r: SubscriptionOptions)
        ensures
            r == (SubscriptionOptions {
                no_local: false,
                retain_as_published: false,
                retain_handling: RetainHandling::SendAtSubscribe,
            }),
    {
        SubscriptionOptions {
            no_local: false,
            retain_as_published: false,
            retain_handling: RetainHandling::SendAtSubscribe,
        }
    }
}

/// A packet the engine asks the caller to encode and write out.
#[derive(Clone, Debug)]
pub enum OutPacket {
    ConnAck { session_present: bool, reason: ConnectReason },
    Publish(PublishPacket),
    PubAck { id: u16, reason: AckReason },
    PubRec { id: u16, reason: AckReason },
    PubRel { id: u16 },
    PubComp { id: u16, reason: AckReason },
    SubAck { id: u16, granted: Vec<Option<QoS>> },
    UnsubAck { id: u16 },
    PingResponse,
    Disconnect { reason: CloseReason },
}

/// Revision-5 authentication exchange packet.
#[derive(Clone, Debug)]
pub struct AuthPacket {}

/// Ping request packet.
#[derive(Clone, Debug)]
pub struct PingPacket {}

/// Peer-initiated disconnect packet.
#[derive(Clone, Debug)]
pub struct DisconnectPacket {}

/// Engine-generated notice that the connection was closed.
#[derive(Clone, Debug)]
pub struct ClosedNotice {}

/// Decoded subscribe request.
#[derive(Clone, Debug)]
pub struct SubscribePacket {
    pub id: u16,
    pub requests: Vec<SubscriptionRequest>,
}

/// Decoded unsubscribe request.
#[derive(Clone, Debug)]
pub struct UnsubscribePacket {
    pub id: u16,
    pub filters: Vec<Vec<u8>>,
}

/// A control packet, as handed to the Control handler.
#[derive(Debug)]
pub enum ControlPacket {
    Auth(AuthPacket),
    Ping(PingPacket),
    Disconnect(DisconnectPacket),
    Subscribe(SubscribePacket),
    Unsubscribe(UnsubscribePacket),
    Closed(ClosedNotice),
}

/// The Control handler's per-filter decision on a subscribe request:
/// the granted quality of service, or nothing when the filter is denied.
#[derive(Clone, Debug)]
pub struct SubscriptionGrant {
    pub filter: Vec<u8>,
    pub qos: Option<QoS>,
    pub options: SubscriptionOptions,
}

/// Mathematical model of a subscription grant.
pub struct GrantModel {
    pub filter: Seq<u8>,
    pub qos: Option<QoS>,
    pub options: SubscriptionOptions,
}

impl View for SubscriptionGrant {
    type V = GrantModel;

    open spec fn view(&self) -> GrantModel {
        GrantModel { filter: self.filter@, qos: self.qos, options: self.options }
    }
}

impl DeepView for SubscriptionGrant {
    type V = GrantModel;

    open spec fn deep_view(&self) -> GrantModel {
        self.view()
    }
}

/// The flat view and the models of a list of grants agree.
pub proof fn lemma_grant_list_view(vs: Vec<SubscriptionGrant>)
    ensures
        vs.deep_view().len() == vs@.len(),
        forall|i: int| 0 <= i < vs@.len() ==> #[trigger] vs.deep_view()[i] == vs@[i]@,
{
}

/// The Control handler's result, turned into the matching acknowledgment
/// by the dispatcher.
#[derive(Debug)]
pub enum ControlResult {
    AuthAck,
    PingAck,
    DisconnectAck,
    SubscribeAck { id: u16, grants: Vec<SubscriptionGrant> },
    UnsubscribeAck { id: u16, filters: Vec<Vec<u8>> },
    ClosedAck,
}

impl AuthPacket {
    /// The standard acknowledgment of an authentication packet.
    pub fn ack(self) -> (r: ControlResult)
        ensures
            r == ControlResult::AuthAck,
    {
        ControlResult::AuthAck
    }
}

impl PingPacket {
    /// The standard acknowledgment of a ping request.
    pub fn ack(self) -> (r: ControlResult)
        ensures
            r == ControlResult::PingAck,
    {
        ControlResult::PingAck
    }
}

impl DisconnectPacket {
    /// The standard acknowledgment of a peer disconnect.
    pub fn ack(self) -> (r: ControlResult)
        ensures
            r == ControlResult::DisconnectAck,
    {
        ControlResult::DisconnectAck
    }
}

impl ClosedNotice {
    /// The standard acknowledgment of a close notice.
    pub fn ack(self) -> (r: ControlResult)
        ensures
            r == ControlResult::ClosedAck,
    {
        ControlResult::ClosedAck
    }
}

impl UnsubscribePacket {
    /// Acknowledge an unsubscribe request as removed.
    pub fn ack(self) -> (r: ControlResult)
        ensures
            r matches ControlResult::UnsubscribeAck { id, filters } && id == self.id && filters
                == self.filters,
    {
        ControlResult::UnsubscribeAck { id: self.id, filters: self.filters }
    }
}

impl SubscribePacket {
    /// Acknowledge a subscribe request, granting every filter at its
    /// requested quality of service.
    #[verifier::loop_isolation(false)]
    pub fn ack(self) -> (r: ControlResult)
        ensures
            r matches ControlResult::SubscribeAck { id, grants } && id == self.id && grants@.len()
                == self.requests@.len() && forall|k: int|
                0 <= k < self.requests@.len() ==> (#[trigger] grants@[k])@ == (GrantModel {
                    filter: self.requests@[k].filter@,
                    qos: Some(self.requests@[k].qos),
                    options: self.requests@[k].options,
                }),
    {
        let mut grants: Vec<SubscriptionGrant> = Vec::new();
        let mut i: usize = 0;
        while i < self.requests.len()
            invariant
                0 <= i <= self.requests@.len(),
                grants@.len() == i,
                forall|k: int|
                    0 <= k < i ==> (#[trigger] grants@[k])@ == (GrantModel {
                        filter: self.requests@[k].filter@,
                        qos: Some(self.requests@[k].qos),
                        options: self.requests@[k].options,
                    }),
            decreases self.requests@.len() - i,
        {
            let filter = crate::subs::copy_bytes(self.requests[i].filter.as_slice());
            let qos = self.requests[i].qos;
            let options = self.requests[i].options;
            grants.push(SubscriptionGrant { filter, qos: Some(qos), options });
            i += 1;
        }
        ControlResult::SubscribeAck { id: self.id, grants }
    }
}

} // verus!
