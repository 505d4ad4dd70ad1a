use modality_ros_hook::events::{
    CapturedMessage, CapturedMessageWithTime, CapturedTime, MessageDirection, PublisherGraphId, RmwEvent, RosEvent,
    ServiceEventType, TimelineId, epoch_nanos_to_u64, now,
};

#[test]
fn compound_time_to_epoch_nanos() {
    let t = CapturedTime::Compound { sec: 12, nsec: 345 };
    assert_eq!(t.to_epoch_nanos(), Some(12_000_000_345));
    let t = CapturedTime::Compound { sec: 0, nsec: 0 };
    assert_eq!(t.to_epoch_nanos(), Some(0));
}

#[test]
fn negative_times_have_no_epoch_nanos() {
    assert_eq!(CapturedTime::Compound { sec: -1, nsec: 0 }.to_epoch_nanos(), None);
    assert_eq!(CapturedTime::Compound { sec: 1, nsec: -5 }.to_epoch_nanos(), None);
    assert_eq!(CapturedTime::SignedEpochNanos(-1).to_epoch_nanos(), None);
}

#[test]
fn epoch_nanos_overflow_of_seconds_is_none() {
    assert_eq!(CapturedTime::Compound { sec: i64::MAX, nsec: 0 }.to_epoch_nanos(), None);
}

#[test]
fn signed_epoch_nanos_passes_through() {
    assert_eq!(CapturedTime::SignedEpochNanos(1_700_000_000_000_000_000).to_epoch_nanos(), Some(1_700_000_000_000_000_000));
}

#[test]
fn opposite_steps() {
    assert_eq!(ServiceEventType::SendRequest.opposite(), ServiceEventType::TakeRequest);
    assert_eq!(ServiceEventType::TakeRequest.opposite(), ServiceEventType::SendRequest);
    assert_eq!(ServiceEventType::SendResponse.opposite(), ServiceEventType::TakeResponse);
    assert_eq!(ServiceEventType::TakeResponse.opposite(), ServiceEventType::SendResponse);
    for t in [
        ServiceEventType::SendRequest,
        ServiceEventType::TakeRequest,
        ServiceEventType::SendResponse,
        ServiceEventType::TakeResponse,
    ] {
        assert_eq!(t.opposite().opposite(), t);
    }
}

#[test]
fn step_names() {
    assert_eq!(ServiceEventType::SendRequest.to_text(), "send_request");
    assert_eq!(ServiceEventType::TakeRequest.to_text(), "recv_request");
    assert_eq!(ServiceEventType::SendResponse.to_text(), "send_response");
    assert_eq!(ServiceEventType::TakeResponse.to_text(), "recv_response");
}

#[test]
fn gid_hex_string() {
    let mut bytes = [0u8; 24];
    bytes[0] = 0x01;
    bytes[23] = 0xfe;
    let gid = PublisherGraphId(bytes);
    let s = gid.to_hex_string();
    assert_eq!(s.len(), 48);
    assert!(s.starts_with("01"));
    assert!(s.ends_with("fe"));
    assert_eq!(&s[2..46], "0".repeat(44));
}

#[test]
fn rmw_event_accessors() {
    let tl = TimelineId(77);
    let e = RmwEvent::create_node("/ns".to_string(), "n".to_string(), tl);
    assert_eq!(*e.timeline_id(), tl);
    let d = RmwEvent::destroy_node(tl);
    assert_eq!(*d.timeline_id(), tl);
    assert_eq!(RosEvent::from(RmwEvent::destroy_node(TimelineId(5))).timeline_id(), TimelineId(5));
    match RosEvent::from(d) {
        RosEvent::Rmw(RmwEvent::DestroyNode { node_timeline_id, .. }) => assert_eq!(node_timeline_id, tl),
        _ => panic!("expected a destroy-node event"),
    }
}

#[test]
fn now_is_after_the_epoch() {
    let t = now().expect("the clock reads after the epoch");
    assert!(t > 1_500_000_000_000_000_000);
}

#[test]
fn captured_messages_become_ros_events() {
    let m = CapturedMessageWithTime {
        msg: CapturedMessage {
            kvs: vec![],
            topic_name: "/t".to_string(),
            node_namespace: "/".to_string(),
            node_name: "n".to_string(),
            node_timeline_id: TimelineId(11),
            direction: MessageDirection::Send { local_publisher_graph_id: None },
        },
        publish_time: CapturedTime::Compound { sec: 0, nsec: 0 },
        receive_time: None,
    };
    let e: RosEvent = m.into();
    assert!(matches!(e, RosEvent::Message(_)));
    assert_eq!(e.timeline_id(), TimelineId(11));
}

#[test]
fn epoch_nanos_that_fit_in_u64_are_kept() {
    assert_eq!(epoch_nanos_to_u64(0), Some(0));
    assert_eq!(epoch_nanos_to_u64(1_700_000_000_123_456_789), Some(1_700_000_000_123_456_789));
    assert_eq!(epoch_nanos_to_u64(u64::MAX as u128), Some(u64::MAX));
    assert_eq!(epoch_nanos_to_u64(u64::MAX as u128 + 1), None);
}
