use mqtt_session::cell::OutboundState;
use mqtt_session::dispatcher::{Action, ConnectOutcome, DispatchState, Dispatcher};
use mqtt_session::packets::{
    AckReason, CloseReason, ConnectPacket, ConnectReason, ControlPacket, ControlResult,
    HandlerOutcome, OutPacket, PingPacket, ProtocolVersion, PublishPacket, QoS,
    RetainHandling, SubscribePacket, SubscriptionOptions, SubscriptionRequest,
    UnsubscribePacket,
};
use mqtt_session::sink::SinkOutcome;
use mqtt_session::v5::default::DefaultControlService;

fn connect_packet(version: ProtocolVersion) -> ConnectPacket {
    ConnectPacket {
        version,
        client_id: b"cli".to_vec(),
        clean_start: true,
        keep_alive: 10,
        username: None,
        password: None,
    }
}

fn established(version: ProtocolVersion, now: u64) -> Dispatcher {
    let mut d = Dispatcher::new(now + 5);
    let acts = d.on_connect(connect_packet(version), now);
    assert!(matches!(acts[0], Action::InvokeConnectHandler(_)));
    let acts = d.on_connect_result(
        ConnectOutcome::Accept { session_present: false, keep_alive: 10, max_inflight: 16 },
        now,
    );
    assert!(matches!(
        acts[0],
        Action::Send(OutPacket::ConnAck { session_present: false, reason: ConnectReason::Accepted })
    ));
    assert_eq!(d.state, DispatchState::Established);
    d
}

fn qos2_publish(id: u16) -> PublishPacket {
    PublishPacket {
        id: Some(id),
        topic: b"t".to_vec(),
        payload: b"x".to_vec(),
        qos: QoS::ExactlyOnce,
        retain: false,
        dup: false,
    }
}

fn opts() -> SubscriptionOptions {
    SubscriptionOptions {
        no_local: false,
        retain_as_published: false,
        retain_handling: RetainHandling::SendAtSubscribe,
    }
}

#[test]
fn handshake_accept_creates_session() {
    let d = established(ProtocolVersion::V5, 100);
    let s = d.session.as_ref().unwrap();
    assert_eq!(s.version, ProtocolVersion::V5);
    assert_eq!(s.client_id, b"cli".to_vec());
    assert_eq!(s.keep_alive, 10);
    assert_eq!(s.max_inflight, 16);
    assert_eq!(s.deadline, 110);
    assert!(!s.closed);
}

#[test]
fn handshake_reject_sends_exact_reason_and_no_session() {
    let mut d = Dispatcher::new(105);
    d.on_connect(connect_packet(ProtocolVersion::V5), 100);
    let acts = d.on_connect_result(
        ConnectOutcome::Reject { reason: ConnectReason::NotAuthorized },
        100,
    );
    assert_eq!(acts.len(), 2);
    assert!(matches!(
        acts[0],
        Action::Send(OutPacket::ConnAck {
            session_present: false,
            reason: ConnectReason::NotAuthorized
        })
    ));
    assert!(matches!(acts[1], Action::CloseTransport));
    assert!(d.session.is_none());
    assert_eq!(d.state, DispatchState::Closing);
    assert_eq!(d.close_reason, Some(CloseReason::HandshakeRejected));
    // closing the transport still leaves no session behind
    let acts = d.on_transport_closed();
    assert!(acts.is_empty());
    assert_eq!(d.state, DispatchState::Closed);
}

#[test]
fn non_connect_packet_before_handshake_is_fatal() {
    let mut d = Dispatcher::new(105);
    let acts = d.on_publish(qos2_publish(1), 100);
    assert!(matches!(acts[0], Action::CloseTransport));
    assert_eq!(d.state, DispatchState::Closing);
    assert_eq!(d.close_reason, Some(CloseReason::ProtocolViolation));
}

#[test]
fn handshake_timeout_is_fatal() {
    let mut d = Dispatcher::new(105);
    assert!(d.on_timer(104).is_empty());
    let acts = d.on_timer(105);
    assert!(matches!(acts[0], Action::CloseTransport));
    assert_eq!(d.close_reason, Some(CloseReason::HandshakeTimeout));
}

#[test]
fn qos2_four_step_handshake_runs_handler_once() {
    let mut d = established(ProtocolVersion::V5, 100);

    // step 1: publish arrives; receive-ack goes out, handler not invoked
    let acts = d.on_publish(qos2_publish(7), 101);
    assert_eq!(acts.len(), 1);
    assert!(matches!(
        acts[0],
        Action::Send(OutPacket::PubRec { id: 7, reason: AckReason::Success })
    ));

    // a retransmission of the same id is acknowledged again,
    // without invoking the handler or touching the exchange
    let acts = d.on_publish(qos2_publish(7), 102);
    assert_eq!(acts.len(), 1);
    assert!(matches!(
        acts[0],
        Action::Send(OutPacket::PubRec { id: 7, reason: AckReason::Success })
    ));
    assert_eq!(d.session.as_ref().unwrap().inbound.len(), 1);

    // step 2/3: the release retires the exchange and runs the handler now
    let acts = d.on_pubrel(7, 103);
    assert_eq!(acts.len(), 1);
    match &acts[0] {
        Action::InvokePublishHandler(p) => {
            assert_eq!(p.id, Some(7));
            assert_eq!(p.topic, b"t".to_vec());
        },
        other => panic!("expected handler invocation, got {:?}", other),
    }
    assert_eq!(d.session.as_ref().unwrap().inbound.len(), 0);

    // step 4: the handler outcome turns into the complete-ack
    let acts = d.on_publish_result(Some(7), QoS::ExactlyOnce, HandlerOutcome::Success, 104);
    assert!(matches!(
        acts[0],
        Action::Send(OutPacket::PubComp { id: 7, reason: AckReason::Success })
    ));

    // a late duplicate release finds no exchange: answered, handler untouched
    let acts = d.on_pubrel(7, 105);
    assert!(matches!(
        acts[0],
        Action::Send(OutPacket::PubComp { id: 7, reason: AckReason::IdNotFound })
    ));
}

#[test]
fn qos1_publish_acknowledged_per_handler_outcome() {
    let mut d = established(ProtocolVersion::V5, 100);
    let p = PublishPacket {
        id: Some(3),
        topic: b"t".to_vec(),
        payload: b"x".to_vec(),
        qos: QoS::AtLeastOnce,
        retain: false,
        dup: false,
    };
    let acts = d.on_publish(p, 101);
    assert!(matches!(acts[0], Action::InvokePublishHandler(_)));
    let acts = d.on_publish_result(Some(3), QoS::AtLeastOnce, HandlerOutcome::Success, 102);
    assert!(matches!(
        acts[0],
        Action::Send(OutPacket::PubAck { id: 3, reason: AckReason::Success })
    ));
    // a handler failure is surfaced as the failure reason, not dropped
    let acts = d.on_publish_result(Some(3), QoS::AtLeastOnce, HandlerOutcome::Failure, 103);
    assert!(matches!(
        acts[0],
        Action::Send(OutPacket::PubAck { id: 3, reason: AckReason::UnspecifiedError })
    ));
}

#[test]
fn qos0_publish_has_no_acknowledgment() {
    let mut d = established(ProtocolVersion::V5, 100);
    let p = PublishPacket {
        id: None,
        topic: b"t".to_vec(),
        payload: b"x".to_vec(),
        qos: QoS::AtMostOnce,
        retain: false,
        dup: false,
    };
    let acts = d.on_publish(p, 101);
    assert!(matches!(acts[0], Action::InvokePublishHandler(_)));
    let acts = d.on_publish_result(None, QoS::AtMostOnce, HandlerOutcome::Failure, 102);
    assert!(acts.is_empty());
}

#[test]
fn malformed_publish_is_a_protocol_violation() {
    let mut d = established(ProtocolVersion::V5, 100);
    let p = PublishPacket {
        id: None,
        topic: b"t".to_vec(),
        payload: b"x".to_vec(),
        qos: QoS::AtLeastOnce,
        retain: false,
        dup: false,
    };
    let acts = d.on_publish(p, 101);
    assert!(matches!(acts[0], Action::Send(OutPacket::Disconnect { .. })));
    assert_eq!(d.close_reason, Some(CloseReason::ProtocolViolation));
}

#[test]
fn outbound_qos2_exchange_advances_and_resolves() {
    let mut d = established(ProtocolVersion::V5, 100);
    let s = d.session.as_mut().unwrap();
    let (id, _) = s.publish(b"t".to_vec(), b"x".to_vec(), QoS::ExactlyOnce, false, 101).unwrap();
    assert_eq!(id, Some(1));

    let acts = d.on_pubrec(1, 102);
    assert!(matches!(acts[0], Action::Send(OutPacket::PubRel { id: 1 })));
    assert_eq!(d.session.as_ref().unwrap().outbound[0].state, OutboundState::AwaitComp);

    // a pubcomp for the advanced exchange resolves the pending publish
    let acts = d.on_pubcomp(1, 103);
    assert!(matches!(
        acts[0],
        Action::ResolvePublish { id: 1, outcome: SinkOutcome::Acknowledged }
    ));
    assert!(d.session.as_ref().unwrap().outbound.is_empty());
}

#[test]
fn unmatched_acknowledgments_are_ignored() {
    let mut d = established(ProtocolVersion::V5, 100);
    let s = d.session.as_mut().unwrap();
    s.publish(b"t".to_vec(), b"x".to_vec(), QoS::ExactlyOnce, false, 101).unwrap();

    // a puback for a QoS2 exchange must not retire it
    assert!(d.on_puback(1, 102).is_empty());
    assert_eq!(d.session.as_ref().unwrap().outbound.len(), 1);
    // acks for unknown ids are non-fatal and ignored
    assert!(d.on_puback(9, 102).is_empty());
    assert!(d.on_pubrec(9, 102).is_empty());
    assert!(d.on_pubcomp(9, 102).is_empty());
    assert_eq!(d.state, DispatchState::Established);
}

#[test]
fn keep_alive_expiry_closes_with_timeout_reason() {
    let mut d = established(ProtocolVersion::V5, 100);
    // deadline is 110; before it, nothing happens
    assert!(d.on_timer(109).is_empty());
    let acts = d.on_timer(110);
    assert_eq!(acts.len(), 2);
    assert!(matches!(
        acts[0],
        Action::Send(OutPacket::Disconnect { reason: CloseReason::KeepAliveTimeout })
    ));
    assert!(matches!(acts[1], Action::CloseTransport));
    assert_eq!(d.close_reason, Some(CloseReason::KeepAliveTimeout));
}

#[test]
fn traffic_resets_keep_alive_deadline() {
    let mut d = established(ProtocolVersion::V5, 100);
    // inbound traffic at 109 pushes the deadline to 119
    let acts = d.on_control(ControlPacket::Ping(PingPacket {}), 109);
    assert!(matches!(acts[0], Action::InvokeControlHandler(_)));
    assert!(d.on_timer(110).is_empty());
    assert!(d.on_timer(118).is_empty());
    // outbound traffic through the sink resets it too
    let s = d.session.as_mut().unwrap();
    s.publish(b"t".to_vec(), b"x".to_vec(), QoS::AtMostOnce, false, 118).unwrap();
    assert!(d.on_timer(127).is_empty());
    assert!(!d.on_timer(128).is_empty());
}

#[test]
fn close_is_idempotent_across_sources() {
    let mut d = established(ProtocolVersion::V5, 100);
    let acts = d.close(CloseReason::ApplicationClose);
    assert_eq!(acts.len(), 2);
    // a concurrent second trigger (timeout, peer disconnect) is a no-op
    assert!(d.close(CloseReason::KeepAliveTimeout).is_empty());
    assert!(d.close(CloseReason::PeerDisconnect).is_empty());
    assert_eq!(d.close_reason, Some(CloseReason::ApplicationClose));
    let acts = d.on_transport_closed();
    assert!(acts.is_empty());
    assert_eq!(d.state, DispatchState::Closed);
    // a second teardown does nothing: resources are released once
    assert!(d.on_transport_closed().is_empty());
    assert_eq!(d.close_reason, Some(CloseReason::ApplicationClose));
}

#[test]
fn teardown_resolves_pending_sink_publishes_as_closed() {
    let mut d = established(ProtocolVersion::V5, 100);
    let s = d.session.as_mut().unwrap();
    s.publish(b"t".to_vec(), b"x".to_vec(), QoS::AtLeastOnce, false, 101).unwrap();
    s.publish(b"t".to_vec(), b"y".to_vec(), QoS::ExactlyOnce, false, 101).unwrap();
    d.close(CloseReason::PeerDisconnect);
    let acts = d.on_transport_closed();
    assert_eq!(acts.len(), 2);
    assert!(matches!(
        acts[0],
        Action::ResolvePublish { id: 1, outcome: SinkOutcome::SessionClosed }
    ));
    assert!(matches!(
        acts[1],
        Action::ResolvePublish { id: 2, outcome: SinkOutcome::SessionClosed }
    ));
    let s = d.session.as_ref().unwrap();
    assert!(s.closed);
    assert!(s.outbound.is_empty());
}

#[test]
fn subscribe_flow_updates_registry_and_acknowledges() {
    let mut d = established(ProtocolVersion::V5, 100);
    let pkt = SubscribePacket {
        id: 11,
        requests: vec![
            SubscriptionRequest { filter: b"a/#".to_vec(), qos: QoS::AtLeastOnce, options: opts() },
            SubscriptionRequest {
                filter: b"a/#/b".to_vec(),
                qos: QoS::ExactlyOnce,
                options: opts(),
            },
        ],
    };
    let acts = d.on_control(ControlPacket::Subscribe(pkt), 101);
    let res = match acts.into_iter().next().unwrap() {
        Action::InvokeControlHandler(p) => DefaultControlService {}.call(p),
        other => panic!("expected control handler invocation, got {:?}", other),
    };
    let acts = d.on_control_result(res, 102);
    assert_eq!(acts.len(), 1);
    match &acts[0] {
        Action::Send(OutPacket::SubAck { id, granted }) => {
            assert_eq!(*id, 11);
            // the malformed filter is rejected at registration time
            assert_eq!(granted, &vec![Some(QoS::AtLeastOnce), None]);
        },
        other => panic!("expected subscribe acknowledgment, got {:?}", other),
    }
    let s = d.session.as_ref().unwrap();
    assert_eq!(s.subs.len(), 1);
    assert_eq!(s.subs.effective_qos(b"a/b"), Some(QoS::AtLeastOnce));

    // unsubscribe removes and acknowledges
    let pkt = UnsubscribePacket { id: 12, filters: vec![b"a/#".to_vec()] };
    let acts = d.on_control(ControlPacket::Unsubscribe(pkt), 103);
    let res = match acts.into_iter().next().unwrap() {
        Action::InvokeControlHandler(p) => DefaultControlService {}.call(p),
        other => panic!("expected control handler invocation, got {:?}", other),
    };
    let acts = d.on_control_result(res, 104);
    assert!(matches!(acts[0], Action::Send(OutPacket::UnsubAck { id: 12 })));
    assert_eq!(d.session.as_ref().unwrap().subs.len(), 0);
}

#[test]
fn ping_is_answered_and_disconnect_closes() {
    let mut d = established(ProtocolVersion::V5, 100);
    let res = DefaultControlService {}.call(ControlPacket::Ping(PingPacket {}));
    let acts = d.on_control_result(res, 101);
    assert!(matches!(acts[0], Action::Send(OutPacket::PingResponse)));

    let acts = d.on_control_result(ControlResult::DisconnectAck, 102);
    assert_eq!(acts.len(), 2);
    assert!(matches!(acts[1], Action::CloseTransport));
    assert_eq!(d.close_reason, Some(CloseReason::PeerDisconnect));
}

#[test]
fn auth_is_a_violation_on_revision_three() {
    let mut d = established(ProtocolVersion::V3, 100);
    let acts = d.on_control(ControlPacket::Auth(mqtt_session::packets::AuthPacket {}), 101);
    // a revision-3 connection sends no disconnect packet, only closes
    assert_eq!(acts.len(), 1);
    assert!(matches!(acts[0], Action::CloseTransport));
    assert_eq!(d.close_reason, Some(CloseReason::ProtocolViolation));
}

#[test]
fn revision_three_close_sends_no_disconnect_packet() {
    let mut d = established(ProtocolVersion::V3, 100);
    let acts = d.close(CloseReason::ApplicationClose);
    assert_eq!(acts.len(), 1);
    assert!(matches!(acts[0], Action::CloseTransport));
}

#[test]
fn decode_errors_are_fatal() {
    // framable stream: the peer still gets a protocol-level error response
    let mut d = established(ProtocolVersion::V5, 100);
    let acts = d.on_decode_error(true);
    assert_eq!(acts.len(), 2);
    assert!(matches!(
        acts[0],
        Action::Send(OutPacket::Disconnect { reason: CloseReason::DecodeError })
    ));
    assert_eq!(d.close_reason, Some(CloseReason::DecodeError));

    // unframable stream: closed silently
    let mut d = established(ProtocolVersion::V5, 100);
    let acts = d.on_decode_error(false);
    assert_eq!(acts.len(), 1);
    assert!(matches!(acts[0], Action::CloseTransport));
    assert_eq!(d.close_reason, Some(CloseReason::DecodeError));
}

#[test]
fn transport_loss_tears_down_with_transport_reason() {
    // the peer's TCP connection vanishes without any protocol exchange
    let mut d = established(ProtocolVersion::V5, 100);
    let acts = d.on_transport_closed();
    assert!(acts.is_empty());
    assert_eq!(d.state, DispatchState::Closed);
    assert_eq!(d.close_reason, Some(CloseReason::TransportError));
    assert!(d.session.as_ref().unwrap().closed);
}
