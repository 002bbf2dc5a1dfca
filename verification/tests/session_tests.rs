use mqtt_session::cell::{
    IdError, MAX_PACKET_ID, OutboundExchange, OutboundState, SessionState,
};
use mqtt_session::packets::{ProtocolVersion, QoS, RetainHandling, SubscriptionOptions};
use mqtt_session::sink::SinkError;

fn session(max_inflight: u16) -> SessionState {
    SessionState::new(ProtocolVersion::V5, b"client".to_vec(), 30, false, max_inflight, 1000)
}

fn opts() -> SubscriptionOptions {
    SubscriptionOptions {
        no_local: false,
        retain_as_published: false,
        retain_handling: RetainHandling::SendAtSubscribe,
    }
}

#[test]
fn packet_ids_are_sequential() {
    let mut s = session(100);
    assert_eq!(s.alloc_packet_id(OutboundState::AwaitAck), Ok(1));
    assert_eq!(s.alloc_packet_id(OutboundState::AwaitAck), Ok(2));
    assert_eq!(s.alloc_packet_id(OutboundState::AwaitRec), Ok(3));
}

#[test]
fn released_ids_are_not_reused_before_wraparound() {
    let mut s = session(100);
    assert_eq!(s.alloc_packet_id(OutboundState::AwaitAck), Ok(1));
    assert_eq!(s.alloc_packet_id(OutboundState::AwaitAck), Ok(2));
    assert_eq!(s.take_outbound(1), Some(OutboundState::AwaitAck));
    // allocation stays sequential; the freed id comes back only on wrap
    assert_eq!(s.alloc_packet_id(OutboundState::AwaitAck), Ok(3));
}

#[test]
fn allocator_wraps_and_skips_outstanding_ids() {
    let mut s = session(100);
    s.next_id = MAX_PACKET_ID - 1;
    assert_eq!(s.alloc_packet_id(OutboundState::AwaitAck), Ok(MAX_PACKET_ID - 1));
    assert_eq!(s.alloc_packet_id(OutboundState::AwaitAck), Ok(MAX_PACKET_ID));
    // wraps to 1, skipping nothing outstanding there
    assert_eq!(s.alloc_packet_id(OutboundState::AwaitAck), Ok(1));
    // 65534, 65535, 1 are outstanding; from 2 onwards all free
    assert_eq!(s.alloc_packet_id(OutboundState::AwaitAck), Ok(2));
}

#[test]
fn allocator_skips_ids_still_in_use() {
    let mut s = session(100);
    assert_eq!(s.alloc_packet_id(OutboundState::AwaitAck), Ok(1));
    s.next_id = 1;
    // id 1 is still outstanding, so the allocator moves past it
    assert_eq!(s.alloc_packet_id(OutboundState::AwaitAck), Ok(2));
}

#[test]
fn allocator_fails_when_every_id_is_outstanding() {
    let mut s = session(MAX_PACKET_ID);
    let mut outbound = Vec::new();
    for id in 1..=MAX_PACKET_ID {
        outbound.push(OutboundExchange { id, state: OutboundState::AwaitAck });
    }
    s.outbound = outbound;
    assert_eq!(s.alloc_packet_id(OutboundState::AwaitAck), Err(IdError::Exhausted));
}

#[test]
fn outstanding_ids_are_unique() {
    let mut s = session(100);
    for _ in 0..50 {
        s.alloc_packet_id(OutboundState::AwaitAck).unwrap();
    }
    for i in 0..s.outbound.len() {
        for j in 0..s.outbound.len() {
            if i != j {
                assert_ne!(s.outbound[i].id, s.outbound[j].id);
            }
        }
    }
}

#[test]
fn sink_publish_qos0_needs_no_id() {
    let mut s = session(10);
    let (id, p) = s.publish(b"t".to_vec(), b"x".to_vec(), QoS::AtMostOnce, false, 50).unwrap();
    assert_eq!(id, None);
    assert_eq!(p.id, None);
    assert_eq!(p.topic, b"t".to_vec());
    assert_eq!(p.payload, b"x".to_vec());
    assert_eq!(s.outbound.len(), 0);
    // outbound traffic resets the keep-alive deadline
    assert_eq!(s.deadline, 80);
}

#[test]
fn sink_publish_qos1_registers_exchange() {
    let mut s = session(10);
    let (id, p) = s.publish(b"t".to_vec(), b"x".to_vec(), QoS::AtLeastOnce, false, 50).unwrap();
    assert_eq!(id, Some(1));
    assert_eq!(p.id, Some(1));
    assert_eq!(s.outbound.len(), 1);
    assert_eq!(s.outbound[0].state, OutboundState::AwaitAck);
}

#[test]
fn sink_publish_qos2_awaits_receive_ack() {
    let mut s = session(10);
    let (id, _) = s.publish(b"t".to_vec(), b"x".to_vec(), QoS::ExactlyOnce, false, 50).unwrap();
    assert_eq!(id, Some(1));
    assert_eq!(s.outbound[0].state, OutboundState::AwaitRec);
}

#[test]
fn sink_publish_respects_in_flight_bound() {
    let mut s = session(1);
    assert!(s.publish(b"t".to_vec(), b"x".to_vec(), QoS::AtLeastOnce, false, 50).is_ok());
    let r = s.publish(b"t".to_vec(), b"y".to_vec(), QoS::AtLeastOnce, false, 50);
    assert_eq!(r.unwrap_err(), SinkError::InFlightFull);
    // QoS0 is not tracked, so it still goes through
    assert!(s.publish(b"t".to_vec(), b"z".to_vec(), QoS::AtMostOnce, false, 50).is_ok());
}

#[test]
fn closed_session_refuses_every_sink_call() {
    let mut s = session(10);
    let pending = s.release_all();
    assert!(pending.is_empty());
    assert!(s.closed);
    let r = s.publish(b"t".to_vec(), b"x".to_vec(), QoS::AtMostOnce, false, 50);
    assert_eq!(r.unwrap_err(), SinkError::Closed);
    let r = s.subscribe(b"a/#".to_vec(), QoS::AtLeastOnce, opts(), 50);
    assert_eq!(r.unwrap_err(), SinkError::Closed);
    let r = s.unsubscribe(b"a/#", 50);
    assert_eq!(r.unwrap_err(), SinkError::Closed);
}

#[test]
fn sink_subscribe_validates_filter() {
    let mut s = session(10);
    assert_eq!(s.subscribe(b"a/#".to_vec(), QoS::AtLeastOnce, opts(), 50), Ok(QoS::AtLeastOnce));
    let r = s.subscribe(b"a/#/b".to_vec(), QoS::AtLeastOnce, opts(), 50);
    assert_eq!(r.unwrap_err(), SinkError::InvalidFilter);
    assert_eq!(s.unsubscribe(b"a/#", 60), Ok(true));
    assert_eq!(s.unsubscribe(b"a/#", 60), Ok(false));
}

#[test]
fn release_all_reports_pending_exchanges() {
    let mut s = session(10);
    s.publish(b"t".to_vec(), b"x".to_vec(), QoS::AtLeastOnce, false, 50).unwrap();
    s.publish(b"t".to_vec(), b"y".to_vec(), QoS::ExactlyOnce, false, 50).unwrap();
    let pending = s.release_all();
    assert_eq!(pending, vec![1, 2]);
    assert!(s.outbound.is_empty());
    assert!(s.inbound.is_empty());
    assert!(s.closed);
}
