use modality_ros_hook::attr::AttrValue;
use modality_ros_hook::events::{
    CapturedMessage, CapturedMessageWithTime, CapturedTime, MessageDirection, PublisherGraphId, RmwEvent,
    ServiceEvent, ServiceEventType, TimelineId,
};
use modality_ros_hook::processor::{
    AttrKeyCache, ProcessorState, client_metadata_attrs, epoch_sum_overflows, is_message_convertible, is_client_side, message_event_attrs, publisher_metadata_attrs,
    rmw_event_attrs, service_event_attrs, service_event_name, timeline_metadata_attrs,
};

fn s(k: &str) -> String {
    k.to_string()
}

fn text(t: &str) -> AttrValue {
    AttrValue::String(t.to_string())
}

#[test]
fn timeline_opening_bookkeeping() {
    let mut st = ProcessorState::new();
    let a = TimelineId(1);
    let b = TimelineId(2);
    assert!(st.needs_open(&a));
    st.timeline_opened(a);
    assert!(!st.needs_open(&a));
    assert!(st.needs_open(&b));
    st.timeline_opened(b);
    assert!(st.needs_open(&a));
}

#[test]
fn timeline_metadata_is_sent_once() {
    let mut st = ProcessorState::new();
    let a = TimelineId(1);
    assert!(st.note_timeline_created(a));
    assert!(!st.note_timeline_created(a));
    assert!(st.note_timeline_created(TimelineId(2)));
}

#[test]
fn publisher_and_client_metadata_is_sent_once_per_timeline() {
    let mut st = ProcessorState::new();
    let gid = PublisherGraphId([3u8; 24]);
    assert!(st.note_publisher_described(TimelineId(1), gid));
    assert!(!st.note_publisher_described(TimelineId(1), gid));
    assert!(st.note_publisher_described(TimelineId(2), gid));
    let guid = [9u8; 16];
    assert!(st.note_client_described(TimelineId(1), guid));
    assert!(!st.note_client_described(TimelineId(1), guid));
}

#[test]
fn ordering_counts_events() {
    let mut st = ProcessorState::new();
    assert_eq!(st.ordering(), 0);
    st.event_sent();
    st.event_sent();
    assert_eq!(st.ordering(), 2);
}

#[test]
fn timeline_named_after_node() {
    let kvs = timeline_metadata_attrs("/nav", "gps", "run-1");
    assert_eq!(
        kvs,
        vec![
            (s("timeline.name"), text("nav/gps")),
            (s("timeline.ros.node.name"), text("gps")),
            (s("timeline.ros.node.namespace"), text("/nav")),
            (s("timeline.ros.node"), text("/nav/gps")),
            (s("timeline.run_id"), text("run-1")),
        ]
    );
    let root = timeline_metadata_attrs("/", "talker", "r");
    assert_eq!(root[0], (s("timeline.name"), text("talker")));
    assert_eq!(root[3], (s("timeline.ros.node"), text("//talker")));
}

#[test]
fn rmw_events_become_named_events() {
    let gid = PublisherGraphId([0x10u8; 24]);
    let e = RmwEvent::CreatePublisher {
        node_timeline_id: TimelineId(5),
        timestamp: Some(1000),
        gid: Some(gid),
        topic: s("/chatter"),
        schema_namespace: s("std_msgs::msg"),
        schema_name: s("String"),
        pub_count: 2,
    };
    assert_eq!(
        rmw_event_attrs(&e),
        vec![
            (s("event.timestamp"), AttrValue::Timestamp(1000)),
            (s("event.name"), text("rmw.create_publisher")),
            (s("event.internal.publisher.count"), AttrValue::Integer(2)),
            (s("event.ros.publisher_gid"), text(&"10".repeat(24))),
            (s("event.ros.topic"), text("/chatter")),
            (s("event.ros.schema.namespace"), text("std_msgs::msg")),
            (s("event.ros.schema.name"), text("String")),
        ]
    );
    let d = RmwEvent::DestroyNode { node_timeline_id: TimelineId(5), timestamp: None };
    assert_eq!(rmw_event_attrs(&d), vec![(s("event.name"), text("rmw.destroy_node"))]);
    let c = RmwEvent::CreateClient {
        node_timeline_id: TimelineId(5),
        timestamp: None,
        service_name: s("/add"),
        schema_namespace: s("example_interfaces::srv"),
        schema_name: s("AddTwoInts"),
    };
    assert_eq!(rmw_event_attrs(&c)[0], (s("event.name"), text("rmw.create_client")));
    assert_eq!(rmw_event_attrs(&c)[1], (s("event.ros.service.name"), text("/add")));
}

fn captured(kvs: Vec<(String, AttrValue)>, direction: MessageDirection) -> CapturedMessage {
    CapturedMessage {
        kvs,
        topic_name: s("/orientation"),
        node_namespace: s("/"),
        node_name: s("imu"),
        node_timeline_id: TimelineId(8),
        direction,
    }
}

#[test]
fn published_message_event() {
    let m = CapturedMessageWithTime {
        msg: captured(vec![(s("x"), AttrValue::Integer(1))], MessageDirection::Send { local_publisher_graph_id: None }),
        publish_time: CapturedTime::Compound { sec: 2, nsec: 5 },
        receive_time: None,
    };
    assert_eq!(
        message_event_attrs(m, Some(99)),
        vec![
            (s("event.ros.topic"), text("/orientation")),
            (s("event.name"), text("orientation")),
            (s("event.ros.publish"), AttrValue::Bool(true)),
            (s("event.timestamp"), AttrValue::Timestamp(2_000_000_005)),
            (s("event.dds_time.sec"), AttrValue::Integer(2)),
            (s("event.dds_time.nanosec"), AttrValue::Integer(5)),
            (s("event.x"), AttrValue::Integer(1)),
        ]
    );
}

#[test]
fn received_message_event() {
    let gid = PublisherGraphId([0xabu8; 24]);
    let m = CapturedMessageWithTime {
        msg: captured(
            vec![(s("name"), text("custom")), (s("event.y"), AttrValue::Bool(false))],
            MessageDirection::Receive { remote_publisher_graph_id: Some(gid) },
        ),
        publish_time: CapturedTime::SignedEpochNanos(500),
        receive_time: Some(CapturedTime::SignedEpochNanos(0)),
    };
    let gid_key = format!("event.interaction.remote_timeline.ros.publisher_gid.{}", "ab".repeat(24));
    assert_eq!(
        message_event_attrs(m, Some(99)),
        vec![
            (s("event.ros.topic"), text("/orientation")),
            (s("event.ros.received"), AttrValue::Bool(true)),
            (s("event.interaction.remote_event.timestamp"), AttrValue::Timestamp(500)),
            (gid_key, AttrValue::Bool(true)),
            (s("event.timestamp"), AttrValue::Timestamp(99)),
            (s("event.name"), text("custom")),
            (s("event.y"), AttrValue::Bool(false)),
        ]
    );
}

#[test]
fn received_message_keeps_its_receive_time() {
    let m = CapturedMessageWithTime {
        msg: captured(vec![], MessageDirection::Receive { remote_publisher_graph_id: None }),
        publish_time: CapturedTime::SignedEpochNanos(-3),
        receive_time: Some(CapturedTime::SignedEpochNanos(777)),
    };
    assert_eq!(
        message_event_attrs(m, None),
        vec![
            (s("event.ros.topic"), text("/orientation")),
            (s("event.name"), text("orientation")),
            (s("event.ros.received"), AttrValue::Bool(true)),
            (s("event.timestamp"), AttrValue::Timestamp(777)),
        ]
    );
}

#[test]
fn publisher_and_client_metadata() {
    let gid = PublisherGraphId([1u8; 24]);
    assert_eq!(
        publisher_metadata_attrs(&gid),
        vec![(format!("timeline.ros.publisher_gid.{}", "01".repeat(24)), AttrValue::Bool(true))]
    );
    let guid = [0xffu8; 16];
    assert_eq!(
        client_metadata_attrs(&guid),
        vec![(format!("timeline.ros.service.client_guid.{}", "ff".repeat(16)), AttrValue::Bool(true))]
    );
}

#[test]
fn service_event_names() {
    assert_eq!(service_event_name("/waypoint/create"), "waypoint.create");
    assert_eq!(service_event_name("//a/b/c"), "a.b.c");
    assert_eq!(service_event_name("plain"), "plain");
}

#[test]
fn service_events() {
    let e = ServiceEvent {
        timeline_id: TimelineId(4),
        timestamp: Some(12),
        service_name: s("/waypoint/create"),
        event_type: ServiceEventType::TakeRequest,
        client_guid: [0u8; 16],
        sequence_id: 3,
        kvs: vec![(s("a"), AttrValue::Integer(1))],
    };
    assert_eq!(
        service_event_attrs(e),
        vec![
            (s("event.name"), text("waypoint.create")),
            (s("event.ros.service.name"), text("/waypoint/create")),
            (s("event.ros.service.event"), text("recv_request")),
            (s("event.timestamp"), AttrValue::Timestamp(12)),
            (
                format!("event.interaction.remote_timeline.ros.service.client_guid.{}", "00".repeat(16)),
                AttrValue::Bool(true),
            ),
            (s("event.a"), AttrValue::Integer(1)),
        ]
    );
    assert!(is_client_side(ServiceEventType::SendRequest));
    assert!(is_client_side(ServiceEventType::TakeResponse));
    assert!(!is_client_side(ServiceEventType::TakeRequest));
    assert!(!is_client_side(ServiceEventType::SendResponse));
}

#[test]
fn convertibility_of_captured_messages() {
    assert!(!epoch_sum_overflows(&CapturedTime::Compound { sec: 1, nsec: 1 }));
    assert!(epoch_sum_overflows(&CapturedTime::Compound { sec: 18_446_744_073, nsec: 1_000_000_000 }));
    assert!(!epoch_sum_overflows(&CapturedTime::Compound { sec: i64::MAX, nsec: 0 }));
    assert!(!epoch_sum_overflows(&CapturedTime::SignedEpochNanos(i64::MAX)));
    let send_epoch = CapturedMessageWithTime {
        msg: captured(vec![], MessageDirection::Send { local_publisher_graph_id: None }),
        publish_time: CapturedTime::SignedEpochNanos(1),
        receive_time: None,
    };
    assert!(!is_message_convertible(&send_epoch));
    let recv = CapturedMessageWithTime {
        msg: captured(vec![], MessageDirection::Receive { remote_publisher_graph_id: None }),
        publish_time: CapturedTime::SignedEpochNanos(1),
        receive_time: Some(CapturedTime::Compound { sec: 18_446_744_073, nsec: 709_551_615 }),
    };
    assert!(is_message_convertible(&recv));
    let overflowing = CapturedMessageWithTime {
        msg: captured(vec![], MessageDirection::Receive { remote_publisher_graph_id: None }),
        publish_time: CapturedTime::SignedEpochNanos(1),
        receive_time: Some(CapturedTime::Compound { sec: 18_446_744_073, nsec: 709_551_616 }),
    };
    assert!(!is_message_convertible(&overflowing));
}

#[test]
fn planning_describes_timelines_and_publishers_once() {
    let mut st = ProcessorState::new();
    let gid = PublisherGraphId([2u8; 24]);
    let message = |n: i64| CapturedMessageWithTime {
        msg: CapturedMessage {
            kvs: vec![(s("n"), AttrValue::Integer(n))],
            topic_name: s("/chatter"),
            node_namespace: s("/"),
            node_name: s("talker"),
            node_timeline_id: TimelineId(3),
            direction: MessageDirection::Send { local_publisher_graph_id: Some(gid) },
        },
        publish_time: CapturedTime::Compound { sec: 1, nsec: 0 },
        receive_time: None,
    };
    let first = st.plan_message(message(1), None, "run");
    assert_eq!(first.timeline_metadata.len(), 2);
    assert_eq!(first.timeline_metadata[0], timeline_metadata_attrs("/", "talker", "run"));
    assert_eq!(first.timeline_metadata[1], publisher_metadata_attrs(&gid));
    assert_eq!(first.event[0], (s("event.ros.topic"), text("/chatter")));
    assert_eq!(first.event[1], (s("event.name"), text("chatter")));
    let second = st.plan_message(message(2), None, "run");
    assert!(second.timeline_metadata.is_empty());
    assert_eq!(second.event.last(), Some(&(s("event.n"), AttrValue::Integer(2))));
}

#[test]
fn planning_rmw_and_service_events() {
    let mut st = ProcessorState::new();
    let create = RmwEvent::CreateNode {
        node_namespace: s("/nav"),
        node_name: s("gps"),
        node_timeline_id: TimelineId(6),
        timestamp: None,
    };
    let plan = st.plan_rmw_event(&create, "r");
    assert_eq!(plan.timeline_metadata, vec![timeline_metadata_attrs("/nav", "gps", "r")]);
    assert_eq!(plan.event, rmw_event_attrs(&create));
    let again = st.plan_rmw_event(&create, "r");
    assert!(again.timeline_metadata.is_empty());
    let destroy = RmwEvent::DestroyNode { node_timeline_id: TimelineId(6), timestamp: Some(1) };
    assert!(st.plan_rmw_event(&destroy, "r").timeline_metadata.is_empty());

    let step = |t: ServiceEventType| ServiceEvent {
        timeline_id: TimelineId(6),
        timestamp: None,
        service_name: s("/add"),
        event_type: t,
        client_guid: [5u8; 16],
        sequence_id: 1,
        kvs: vec![],
    };
    let sent = st.plan_service_event(step(ServiceEventType::SendRequest));
    assert_eq!(sent.timeline_metadata, vec![client_metadata_attrs(&[5u8; 16])]);
    assert!(!sent.event.iter().any(|(k, _)| k.starts_with("event.interaction")));
    let taken = st.plan_service_event(step(ServiceEventType::TakeResponse));
    assert!(taken.timeline_metadata.is_empty());
    let server_side = ProcessorState::new().plan_service_event(step(ServiceEventType::TakeRequest));
    assert!(server_side.timeline_metadata.is_empty());
    assert_eq!(server_side.event[0], (s("event.name"), text("add")));
    assert_eq!(
        server_side.event[3],
        (format!("event.interaction.remote_timeline.ros.service.client_guid.{}", "05".repeat(16)), AttrValue::Bool(true))
    );
}

#[test]
fn attribute_keys_are_declared_once() {
    let mut cache = AttrKeyCache::new();
    assert_eq!(cache.lookup("event.name"), None);
    cache.record("event.name", 7);
    assert_eq!(cache.lookup("event.name"), Some(7));
    assert_eq!(cache.lookup("event.other"), None);
    cache.record("event.other", 8);
    assert_eq!(cache.lookup("event.name"), Some(7));
    assert_eq!(cache.lookup("event.other"), Some(8));
}
