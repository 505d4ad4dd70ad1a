use modality_ros_hook::attr::AttrValue;
use modality_ros_hook::config::ModalityRosHookConfig;
use modality_ros_hook::events::{CapturedTime, MessageDirection, PublisherGraphId, RmwEvent, ServiceEventType, TimelineId};
use modality_ros_hook::hooks::{
    ClientState, NodeState, ServiceState, client_created, client_destroyed, clock_read, guid_from_c_chars,
    hold_published, is_transport_clock,
    node_created, node_created_on_new_timeline, node_destroyed, publisher_created, publisher_destroyed,
    rtps_client_guid, service_created, service_destroyed, stamp_published, subscription_created,
    subscription_destroyed,
};
use modality_ros_hook::interpret::{MemberImage, MessageImage};
use modality_ros_hook::introspection::{RosServiceSchema, ROS_TYPE_INT32, ROS_TYPE_INT64};
use modality_ros_hook::registry::{empty_node_registry, node_registered, node_unregistered};
use modality_ros_hook::scalar::{Platform, RawScalar};
use modality_ros_hook::schema::{
    FlatRosMessageMemberSchema, FlatRosMessageSchema, RosMessageMemberSchema, RosMessageSchema, ScalarMemberSchema,
};

const LE: Platform = Platform { little_endian: true };

fn s(k: &str) -> String {
    k.to_string()
}

fn node() -> NodeState {
    NodeState { namespace: s("/nav"), name: s("gps"), timeline_id: TimelineId(42) }
}

fn config() -> ModalityRosHookConfig {
    ModalityRosHookConfig::from_values(None, None, None, None, Some(s("run")))
}

fn fix_schema() -> RosMessageSchema {
    RosMessageSchema {
        namespace: s("pkg::msg"),
        name: s("Fix"),
        size: 8,
        members: vec![RosMessageMemberSchema::Scalar { name: s("status"), type_id: ROS_TYPE_INT32, offset: 0 }],
    }
}

fn fix_image(v: i32) -> MessageImage {
    MessageImage { members: vec![MemberImage::Scalar(RawScalar::Inline(v.to_le_bytes().to_vec()))] }
}

#[test]
fn nodes() {
    let (st, e) = node_created(b"gps", b"/nav", TimelineId(9));
    assert_eq!(st.name, "gps");
    assert_eq!(st.namespace, "/nav");
    assert_eq!(st.timeline_id, TimelineId(9));
    match e {
        RmwEvent::CreateNode { node_namespace, node_name, node_timeline_id, .. } => {
            assert_eq!(node_namespace, "/nav");
            assert_eq!(node_name, "gps");
            assert_eq!(node_timeline_id, TimelineId(9));
        }
        other => panic!("expected create node, got {other:?}"),
    }
    assert!(node_destroyed(None).is_none());
    match node_destroyed(Some(&st)) {
        Some(RmwEvent::DestroyNode { node_timeline_id, .. }) => assert_eq!(node_timeline_id, TimelineId(9)),
        other => panic!("expected destroy node, got {other:?}"),
    }
}

#[test]
fn nodes_on_new_timelines_are_distinct() {
    let (a, _) = node_created_on_new_timeline(b"a", b"/");
    let (b, _) = node_created_on_new_timeline(b"a", b"/");
    assert_ne!(a.timeline_id, b.timeline_id);
    assert_eq!((a.timeline_id.0 >> 76) & 0xf, 4);
    assert_eq!((a.timeline_id.0 >> 62) & 0x3, 2);
}

#[test]
fn publishers_on_ignored_topics_are_left_out() {
    let n = node();
    let c = config();
    assert!(publisher_created(&n, b"/parameter_events", &c, Some(fix_schema()), None, 1).is_none());
    assert!(publisher_created(&n, b"/fix", &c, None, None, 1).is_none());
}

#[test]
fn publishing_captures_and_stamps_messages() {
    let n = node();
    let c = config();
    let gid = PublisherGraphId([7u8; 24]);
    let (st, e) = publisher_created(&n, b" /fix ", &c, Some(fix_schema()), Some(gid), 3).expect("a publisher");
    assert_eq!(st.topic_name, "/fix");
    assert_eq!(st.node_timeline_id, TimelineId(42));
    match &e {
        RmwEvent::CreatePublisher { topic, schema_namespace, schema_name, pub_count, gid: g, .. } => {
            assert_eq!(topic, "/fix");
            assert_eq!(schema_namespace, "pkg::msg");
            assert_eq!(schema_name, "Fix");
            assert_eq!(*pub_count, 3);
            assert_eq!(*g, Some(gid));
        }
        other => panic!("expected create publisher, got {other:?}"),
    }
    let captured = st.capture_published(&fix_image(5), LE, c.max_array_len);
    assert_eq!(captured.len(), 1);
    assert_eq!(captured[0].topic_name, "/fix");
    assert_eq!(captured[0].direction, MessageDirection::Send { local_publisher_graph_id: Some(gid) });
    assert_eq!(captured[0].kvs[2], (s("status"), AttrValue::Integer(5)));
    assert!(is_transport_clock(0));
    assert!(!is_transport_clock(1));
    let stamped = stamp_published(captured, 10, 20);
    assert_eq!(stamped.len(), 1);
    assert_eq!(stamped[0].publish_time, CapturedTime::Compound { sec: 10, nsec: 20 });
    assert!(stamped[0].receive_time.is_none());
    match publisher_destroyed(Some(&st)) {
        Some(RmwEvent::DestroyPublisher { node_timeline_id, gid: g, .. }) => {
            assert_eq!(node_timeline_id, TimelineId(42));
            assert_eq!(g, Some(gid));
        }
        other => panic!("expected destroy publisher, got {other:?}"),
    }
}

#[test]
fn taking_captures_received_messages() {
    let n = node();
    let c = config();
    let (st, e) = subscription_created(&n, b"/fix", &c, Some(fix_schema())).expect("a subscription");
    assert!(matches!(e, RmwEvent::CreateSubscription { .. }));
    let got = st.capture_received(&fix_image(-1), 100, 200, [1u8; 24], LE, 12);
    assert_eq!(got.len(), 1);
    assert_eq!(
        got[0].msg.direction,
        MessageDirection::Receive { remote_publisher_graph_id: Some(PublisherGraphId([1u8; 24])) }
    );
    assert_eq!(got[0].publish_time, CapturedTime::SignedEpochNanos(100));
    assert_eq!(got[0].receive_time, Some(CapturedTime::SignedEpochNanos(200)));
    assert_eq!(got[0].msg.kvs[2], (s("status"), AttrValue::Integer(-1)));
    match subscription_destroyed(Some(&st)) {
        Some(RmwEvent::DestroySubscription { topic, .. }) => assert_eq!(topic, "/fix"),
        other => panic!("expected destroy subscription, got {other:?}"),
    }
    assert!(subscription_created(&n, b"/parameter_events", &c, Some(fix_schema())).is_none());
}

fn add_two_ints() -> RosServiceSchema {
    let request = FlatRosMessageSchema {
        namespace: s("example_interfaces::srv"),
        name: s("AddTwoInts"),
        size: 16,
        members: vec![
            FlatRosMessageMemberSchema::Scalar(ScalarMemberSchema { key: s("a"), type_id: ROS_TYPE_INT64, offset: 0 }),
            FlatRosMessageMemberSchema::Scalar(ScalarMemberSchema { key: s("b"), type_id: ROS_TYPE_INT64, offset: 8 }),
        ],
    };
    let response = FlatRosMessageSchema {
        namespace: s("example_interfaces::srv"),
        name: s("AddTwoInts"),
        size: 8,
        members: vec![FlatRosMessageMemberSchema::Scalar(ScalarMemberSchema {
            key: s("sum"),
            type_id: ROS_TYPE_INT64,
            offset: 0,
        })],
    };
    RosServiceSchema {
        namespace: s("example_interfaces::srv"),
        name: s("AddTwoInts"),
        request_members: request,
        response_members: response,
    }
}

fn i64_image(vals: &[i64]) -> MessageImage {
    MessageImage {
        members: vals.iter().map(|v| MemberImage::Scalar(RawScalar::Inline(v.to_le_bytes().to_vec()))).collect(),
    }
}

#[test]
fn service_interaction_steps() {
    let n = node();
    assert!(service_created(&n, b"/add", None).is_none());
    let (srv, e): (ServiceState, RmwEvent) = service_created(&n, b" /add", Some(add_two_ints())).expect("a service");
    match &e {
        RmwEvent::CreateService { service_name, schema_namespace, schema_name, .. } => {
            assert_eq!(service_name, "/add");
            assert_eq!(schema_namespace, "example_interfaces::srv");
            assert_eq!(schema_name, "AddTwoInts");
        }
        other => panic!("expected create service, got {other:?}"),
    }
    let (cli, _): (ClientState, RmwEvent) = client_created(&n, b"/add", Some(add_two_ints())).expect("a client");
    let guid = rtps_client_guid([1, 2, 3, 4, 5, 6, 7, 8, 9, 10, 11, 12], [13, 14, 15, 16]);
    assert_eq!(guid, [1, 2, 3, 4, 5, 6, 7, 8, 9, 10, 11, 12, 13, 14, 15, 16]);
    let sent = cli.request_sent(&i64_image(&[2, 3]), guid, 1, LE, 12);
    assert_eq!(sent.event_type, ServiceEventType::SendRequest);
    assert_eq!(sent.service_name, "/add");
    assert_eq!(sent.sequence_id, 1);
    assert_eq!(sent.kvs[2], (s("a"), AttrValue::Integer(2)));
    assert_eq!(sent.kvs[3], (s("b"), AttrValue::Integer(3)));
    let taken = srv.request_taken(&i64_image(&[2, 3]), guid, 1, LE, 12);
    assert_eq!(taken.event_type, ServiceEventType::TakeRequest);
    assert_eq!(taken.client_guid, guid);
    let answered = srv.response_sent(&i64_image(&[5]), guid, 1, LE, 12);
    assert_eq!(answered.event_type, ServiceEventType::SendResponse);
    assert_eq!(answered.kvs[2], (s("sum"), AttrValue::Integer(5)));
    let got = cli.response_taken(&i64_image(&[5]), guid, 1, LE, 12);
    assert_eq!(got.event_type, ServiceEventType::TakeResponse);
    assert_eq!(got.timeline_id, TimelineId(42));
    match service_destroyed(Some(&srv)) {
        Some(RmwEvent::DestroyService { service_name, .. }) => assert_eq!(service_name, "/add"),
        other => panic!("expected destroy service, got {other:?}"),
    }
    match client_destroyed(Some(&cli)) {
        Some(RmwEvent::DestroyClient { service_name, .. }) => assert_eq!(service_name, "/add"),
        other => panic!("expected destroy client, got {other:?}"),
    }
    assert!(client_destroyed(None).is_none());
}

#[test]
fn guids_from_c_chars() {
    let mut g = [0i8; 16];
    g[0] = -1;
    g[1] = 127;
    g[2] = -128;
    let u = guid_from_c_chars(g);
    assert_eq!(u[0], 255);
    assert_eq!(u[1], 127);
    assert_eq!(u[2], 128);
    assert_eq!(u[3], 0);
}

#[test]
fn clock_reads_send_waiting_messages_once() {
    let n = node();
    let c = config();
    let (st, _) = publisher_created(&n, b"/fix", &c, Some(fix_schema()), None, 1).expect("a publisher");
    let mut pending = None;
    assert!(clock_read(&mut pending, 0, 1, 2).is_empty());
    hold_published(&mut pending, st.capture_published(&fix_image(5), LE, c.max_array_len));
    assert!(clock_read(&mut pending, 3, 1, 2).is_empty());
    assert_eq!(pending.as_ref().map(|m| m.len()), Some(1));
    let sent = clock_read(&mut pending, 0, 11, 22);
    assert_eq!(sent.len(), 1);
    assert_eq!(sent[0].publish_time, CapturedTime::Compound { sec: 11, nsec: 22 });
    assert!(sent[0].receive_time.is_none());
    assert_eq!(sent[0].msg.kvs[2], (s("status"), AttrValue::Integer(5)));
    assert!(pending.is_none());
    assert!(clock_read(&mut pending, 0, 12, 0).is_empty());
}

#[test]
fn a_node_is_destroyed_once() {
    let nodes = empty_node_registry();
    assert!(nodes.node(7).is_none());
    let nodes = node_registered(&nodes, 7, node());
    assert_eq!(nodes.node(7).map(|n| n.timeline_id), Some(TimelineId(42)));
    let (first, nodes) = node_unregistered(&nodes, 7);
    match first {
        Some(RmwEvent::DestroyNode { node_timeline_id, .. }) => assert_eq!(node_timeline_id, TimelineId(42)),
        other => panic!("expected destroy node, got {other:?}"),
    }
    assert!(nodes.node(7).is_none());
    let (second, nodes) = node_unregistered(&nodes, 7);
    assert!(second.is_none());
    assert!(nodes.node(7).is_none());
}
