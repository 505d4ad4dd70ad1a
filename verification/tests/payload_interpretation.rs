use modality_ros_hook::attr::AttrValue;
use modality_ros_hook::interpret::{MemberImage, MessageImage, as_status_field, as_values_field, extract_log_message};
use modality_ros_hook::introspection::{ROS_TYPE_INT32, ROS_TYPE_OCTET, ROS_TYPE_STRING, ROS_TYPE_UINT8};
use modality_ros_hook::scalar::{Platform, RawScalar};
use modality_ros_hook::schema::{
    FlatRosMessageMemberSchema, FlatRosMessageSchema, MessageSequenceMemberSchema, ScalarArrayMemberSchema,
    ScalarMemberSchema,
};

const LE: Platform = Platform { little_endian: true };

fn s(k: &str) -> String {
    k.to_string()
}

fn text(t: &str) -> AttrValue {
    AttrValue::String(t.to_string())
}

fn scalar(key: &str, type_id: u32, offset: usize) -> FlatRosMessageMemberSchema {
    FlatRosMessageMemberSchema::Scalar(ScalarMemberSchema { key: s(key), type_id, offset })
}

fn int32_array(key: &str, offset: usize, array_size: usize) -> FlatRosMessageMemberSchema {
    FlatRosMessageMemberSchema::ScalarArray(ScalarArrayMemberSchema {
        key: s(key),
        type_id: ROS_TYPE_INT32,
        offset_in_item_slice: offset,
        array_size,
        is_upper_bound: false,
        size_function: Some(1),
        get_function: Some(2),
    })
}

fn int32(v: i32) -> RawScalar {
    RawScalar::Inline(v.to_le_bytes().to_vec())
}

fn string(t: &str) -> RawScalar {
    RawScalar::Text(t.as_bytes().to_vec())
}

fn schema(ns: &str, name: &str, size: usize, members: Vec<FlatRosMessageMemberSchema>) -> FlatRosMessageSchema {
    FlatRosMessageSchema { namespace: s(ns), name: s(name), size, members }
}

fn header(ns: &str, name: &str) -> Vec<(String, AttrValue)> {
    vec![(s("event.ros.schema.namespace"), text(ns)), (s("event.ros.schema.name"), text(name))]
}

#[test]
fn scalars_become_attributes() {
    let sc = schema("pkg::msg", "Sample", 16, vec![scalar("count", ROS_TYPE_INT32, 0), scalar("label", ROS_TYPE_STRING, 8)]);
    let img = MessageImage { members: vec![MemberImage::Scalar(int32(-7)), MemberImage::Scalar(string("hello"))] };
    let mut expected = header("pkg::msg", "Sample");
    expected.push((s("count"), AttrValue::Integer(-7)));
    expected.push((s("label"), text("hello")));
    assert_eq!(sc.interpret_single_message(&img, LE, 12), expected);
}

#[test]
fn arrays_are_keyed_by_index() {
    let sc = schema("pkg::msg", "Pos", 64, vec![int32_array("position", 0, 3)]);
    let img = MessageImage {
        members: vec![MemberImage::ScalarArray { stored_len: 0, items: vec![int32(1), int32(2), int32(3)] }],
    };
    let mut expected = header("pkg::msg", "Pos");
    expected.push((s("position.0"), AttrValue::Integer(1)));
    expected.push((s("position.1"), AttrValue::Integer(2)));
    expected.push((s("position.2"), AttrValue::Integer(3)));
    assert_eq!(sc.interpret_single_message(&img, LE, 12), expected);
}

#[test]
fn dynamic_arrays_use_their_stored_length() {
    let sc = schema("pkg::msg", "Dyn", 64, vec![int32_array("v", 0, 0)]);
    let img = MessageImage {
        members: vec![MemberImage::ScalarArray { stored_len: 2, items: vec![int32(10), int32(20)] }],
    };
    let mut expected = header("pkg::msg", "Dyn");
    expected.push((s("v.0"), AttrValue::Integer(10)));
    expected.push((s("v.1"), AttrValue::Integer(20)));
    assert_eq!(sc.interpret_single_message(&img, LE, 12), expected);
}

#[test]
fn arrays_longer_than_the_limit_are_skipped() {
    let sc = schema("pkg::msg", "Big", 64, vec![int32_array("frame", 0, 13), scalar("after", ROS_TYPE_INT32, 8)]);
    let items: Vec<RawScalar> = (0..13).map(int32).collect();
    let img = MessageImage {
        members: vec![MemberImage::ScalarArray { stored_len: 0, items }, MemberImage::Scalar(int32(5))],
    };
    let mut expected = header("pkg::msg", "Big");
    expected.push((s("after"), AttrValue::Integer(5)));
    assert_eq!(sc.interpret_single_message(&img, LE, 12), expected);
    // With a larger limit the array is kept.
    let kvs = sc.interpret_single_message(&img, LE, 13);
    assert_eq!(kvs.len(), 2 + 13 + 1);
    assert_eq!(kvs[2 + 12], (s("frame.12"), AttrValue::Integer(12)));
}

#[test]
fn members_past_the_message_size_are_skipped() {
    let sc = schema("pkg::msg", "Short", 4, vec![scalar("a", ROS_TYPE_INT32, 0), scalar("b", ROS_TYPE_INT32, 8)]);
    let img = MessageImage { members: vec![MemberImage::Scalar(int32(1)), MemberImage::Scalar(int32(2))] };
    let mut expected = header("pkg::msg", "Short");
    expected.push((s("a"), AttrValue::Integer(1)));
    assert_eq!(sc.interpret_single_message(&img, LE, 12), expected);
}

#[test]
fn a_failing_member_does_not_stop_the_others() {
    let sc = schema("pkg::msg", "Partial", 16, vec![scalar("bad", ROS_TYPE_INT32, 0), scalar("good", ROS_TYPE_INT32, 4)]);
    let img = MessageImage { members: vec![MemberImage::Unread, MemberImage::Scalar(int32(9))] };
    let mut expected = header("pkg::msg", "Partial");
    expected.push((s("good"), AttrValue::Integer(9)));
    assert_eq!(sc.interpret_single_message(&img, LE, 12), expected);
}

fn point() -> FlatRosMessageSchema {
    schema("pkg::msg", "Point", 8, vec![scalar("x", ROS_TYPE_INT32, 0), scalar("y", ROS_TYPE_INT32, 4)])
}

#[test]
fn message_sequences_are_keyed_by_index() {
    let seq = FlatRosMessageMemberSchema::MessageSequence(MessageSequenceMemberSchema {
        key: s("points"),
        offset: 0,
        message_schema: point(),
        array_size: 0,
        is_upper_bound: false,
        size_function: Some(1),
        get_function: Some(2),
    });
    let sc = schema("pkg::msg", "Path", 32, vec![seq]);
    let item = |x: i32, y: i32| MessageImage { members: vec![MemberImage::Scalar(int32(x)), MemberImage::Scalar(int32(y))] };
    let img = MessageImage { members: vec![MemberImage::MessageSequence { stored_len: 2, items: vec![item(1, 2), item(3, 4)] }] };
    let mut expected = header("pkg::msg", "Path");
    expected.push((s("points.0.x"), AttrValue::Integer(1)));
    expected.push((s("points.0.y"), AttrValue::Integer(2)));
    expected.push((s("points.1.x"), AttrValue::Integer(3)));
    expected.push((s("points.1.y"), AttrValue::Integer(4)));
    assert_eq!(sc.interpret_single_message(&img, LE, 12), expected);
    let events = sc.interpret_potentially_compound_message(&img, LE, 12);
    assert_eq!(events, vec![expected]);
}

#[test]
fn member_interpretation_reports_failure() {
    let m = scalar("n", ROS_TYPE_INT32, 0);
    let mut kvs = Vec::new();
    assert!(m.interpret_message(Some("outer"), &MemberImage::Scalar(int32(4)), 8, LE, 12, &mut kvs));
    assert_eq!(kvs, vec![(s("outer.n"), AttrValue::Integer(4))]);
    assert!(!m.interpret_message(None, &MemberImage::Scalar(string("no")), 8, LE, 12, &mut kvs));
    assert_eq!(kvs.len(), 1);
}

fn log_schema(with_name: bool) -> FlatRosMessageSchema {
    let mut members = vec![scalar("level", ROS_TYPE_UINT8, 0)];
    if with_name {
        members.push(scalar("name", ROS_TYPE_STRING, 8));
    }
    members.push(scalar("msg", ROS_TYPE_STRING, 16));
    schema("rcl_interfaces::msg", "Log", 48, members)
}

#[test]
fn rosout_text_becomes_the_event_name() {
    let sc = log_schema(true);
    let img = MessageImage {
        members: vec![
            MemberImage::Scalar(RawScalar::Inline(vec![20])),
            MemberImage::Scalar(string("talker")),
            MemberImage::Scalar(string("Publishing: hi")),
        ],
    };
    let kvs = sc.interpret_single_message(&img, LE, 12);
    let mut expected = header("rcl_interfaces::msg", "Log");
    expected.push((s("level"), AttrValue::Integer(20)));
    expected.push((s("name"), text("Publishing: hi")));
    expected.push((s("msg"), text("Publishing: hi")));
    assert_eq!(kvs, expected);
    assert_eq!(extract_log_message(&sc, &kvs), Some(text("Publishing: hi")));
}

#[test]
fn rosout_without_name_field_gets_event_name() {
    let sc = log_schema(false);
    let img = MessageImage {
        members: vec![MemberImage::Scalar(RawScalar::Inline(vec![10])), MemberImage::Scalar(string("boot"))],
    };
    let kvs = sc.interpret_single_message(&img, LE, 12);
    assert_eq!(kvs.last(), Some(&(s("event.name"), text("boot"))));
}

fn diagnostic_array() -> FlatRosMessageSchema {
    let key_value = schema("diagnostic_msgs::msg", "KeyValue", 48, vec![scalar("key", ROS_TYPE_STRING, 0), scalar("value", ROS_TYPE_STRING, 24)]);
    let status = schema(
        "diagnostic_msgs::msg",
        "DiagnosticStatus",
        128,
        vec![
            scalar("level", ROS_TYPE_OCTET, 0),
            scalar("name", ROS_TYPE_STRING, 8),
            FlatRosMessageMemberSchema::MessageSequence(MessageSequenceMemberSchema {
                key: s("values"),
                offset: 96,
                message_schema: key_value,
                array_size: 0,
                is_upper_bound: false,
                size_function: Some(5),
                get_function: Some(6),
            }),
        ],
    );
    schema(
        "diagnostic_msgs::msg",
        "DiagnosticArray",
        64,
        vec![
            scalar("header.frame_id", ROS_TYPE_STRING, 8),
            FlatRosMessageMemberSchema::MessageSequence(MessageSequenceMemberSchema {
                key: s("status"),
                offset: 40,
                message_schema: status,
                array_size: 0,
                is_upper_bound: false,
                size_function: Some(3),
                get_function: Some(4),
            }),
        ],
    )
}

#[test]
fn diagnostic_arrays_give_one_event_per_status() {
    let sc = diagnostic_array();
    assert!(as_status_field(&sc.members[1]).is_some());
    assert!(as_status_field(&sc.members[0]).is_none());
    let kv = |k: &str, v: &str| MessageImage { members: vec![MemberImage::Scalar(string(k)), MemberImage::Scalar(string(v))] };
    let status = |level: u8, name: &str, values: Vec<MessageImage>| MessageImage {
        members: vec![
            MemberImage::Scalar(RawScalar::Inline(vec![level])),
            MemberImage::Scalar(string(name)),
            MemberImage::MessageSequence { stored_len: values.len(), items: values },
        ],
    };
    let img = MessageImage {
        members: vec![
            MemberImage::Scalar(string("base")),
            MemberImage::MessageSequence {
                stored_len: 2,
                items: vec![
                    status(0, "cpu", vec![kv("CPU Load (%)", "12"), kv("Temp", "40")]),
                    status(2, "disk", vec![]),
                ],
            },
        ],
    };
    let events = sc.interpret_potentially_compound_message(&img, LE, 12);
    let mut common = header("diagnostic_msgs::msg", "DiagnosticArray");
    common.push((s("header.frame_id"), text("base")));
    let mut first = common.clone();
    first.push((s("level"), AttrValue::Integer(0)));
    first.push((s("name"), text("cpu")));
    first.push((s("cpu_load"), text("12")));
    first.push((s("cpu_load.key"), text("CPU Load (%)")));
    first.push((s("temp"), text("40")));
    first.push((s("temp.key"), text("Temp")));
    let mut second = common.clone();
    second.push((s("level"), AttrValue::Integer(2)));
    second.push((s("name"), text("disk")));
    assert_eq!(events, vec![first, second]);
    let status_schema = as_status_field(&sc.members[1]).unwrap();
    assert!(as_values_field(&status_schema.message_schema.members[2]).is_some());
    assert_eq!(sc.interepret_as_diagnostic_array(&img, LE, 12).len(), 2);
}

#[test]
fn diagnostic_array_without_status_field_gives_one_event() {
    let sc = schema("diagnostic_msgs__msg", "DiagnosticArray", 16, vec![scalar("header.frame_id", ROS_TYPE_STRING, 0)]);
    let img = MessageImage { members: vec![MemberImage::Scalar(string("f"))] };
    let mut expected = header("diagnostic_msgs__msg", "DiagnosticArray");
    expected.push((s("header.frame_id"), text("f")));
    assert_eq!(sc.interpret_potentially_compound_message(&img, LE, 12), vec![expected]);
}

fn bounded_int32_sequence(key: &str, bound: usize) -> FlatRosMessageMemberSchema {
    FlatRosMessageMemberSchema::ScalarArray(ScalarArrayMemberSchema {
        key: s(key),
        type_id: ROS_TYPE_INT32,
        offset_in_item_slice: 0,
        array_size: bound,
        is_upper_bound: true,
        size_function: Some(1),
        get_function: Some(2),
    })
}

#[test]
fn bounded_sequences_hold_their_stored_length() {
    let sc = schema("pkg::msg", "Bounded", 32, vec![bounded_int32_sequence("v", 10)]);
    let img = MessageImage {
        members: vec![MemberImage::ScalarArray { stored_len: 3, items: vec![int32(7), int32(8), int32(9)] }],
    };
    let mut expected = header("pkg::msg", "Bounded");
    expected.push((s("v.0"), AttrValue::Integer(7)));
    expected.push((s("v.1"), AttrValue::Integer(8)));
    expected.push((s("v.2"), AttrValue::Integer(9)));
    assert_eq!(sc.interpret_single_message(&img, LE, 12), expected);
}

#[test]
fn message_sequences_longer_than_the_limit_are_skipped() {
    let seq = FlatRosMessageMemberSchema::MessageSequence(MessageSequenceMemberSchema {
        key: s("points"),
        offset: 0,
        message_schema: point(),
        array_size: 0,
        is_upper_bound: false,
        size_function: Some(1),
        get_function: Some(2),
    });
    let sc = schema("pkg::msg", "Cloud", 32, vec![seq, scalar("after", ROS_TYPE_INT32, 24)]);
    let img = MessageImage {
        members: vec![MemberImage::MessageSequence { stored_len: 13, items: vec![] }, MemberImage::Scalar(int32(4))],
    };
    let mut expected = header("pkg::msg", "Cloud");
    expected.push((s("after"), AttrValue::Integer(4)));
    assert_eq!(sc.interpret_single_message(&img, LE, 12), expected);
}

#[test]
fn diagnostic_status_sequences_longer_than_the_limit_give_no_event() {
    let sc = diagnostic_array();
    let status = || MessageImage {
        members: vec![
            MemberImage::Scalar(RawScalar::Inline(vec![0])),
            MemberImage::Scalar(string("cpu")),
            MemberImage::MessageSequence { stored_len: 0, items: vec![] },
        ],
    };
    let img = MessageImage {
        members: vec![
            MemberImage::Scalar(string("base")),
            MemberImage::MessageSequence { stored_len: 3, items: vec![status(), status(), status()] },
        ],
    };
    assert_eq!(sc.interepret_as_diagnostic_array(&img, LE, 2), Vec::<Vec<(String, AttrValue)>>::new());
    assert_eq!(sc.interepret_as_diagnostic_array(&img, LE, 3).len(), 3);
}

#[test]
fn diagnostic_values_longer_than_the_limit_give_no_pair() {
    let sc = diagnostic_array();
    let kv = |k: &str, v: &str| MessageImage { members: vec![MemberImage::Scalar(string(k)), MemberImage::Scalar(string(v))] };
    let img = MessageImage {
        members: vec![
            MemberImage::Scalar(string("base")),
            MemberImage::MessageSequence {
                stored_len: 1,
                items: vec![MessageImage {
                    members: vec![
                        MemberImage::Scalar(RawScalar::Inline(vec![1])),
                        MemberImage::Scalar(string("net")),
                        MemberImage::MessageSequence { stored_len: 2, items: vec![kv("A", "1"), kv("B", "2")] },
                    ],
                }],
            },
        ],
    };
    let mut expected = header("diagnostic_msgs::msg", "DiagnosticArray");
    expected.push((s("header.frame_id"), text("base")));
    expected.push((s("level"), AttrValue::Integer(1)));
    expected.push((s("name"), text("net")));
    assert_eq!(sc.interepret_as_diagnostic_array(&img, LE, 1), vec![expected.clone()]);
    let mut with_pairs = expected;
    with_pairs.push((s("a"), text("1")));
    with_pairs.push((s("a.key"), text("A")));
    with_pairs.push((s("b"), text("2")));
    with_pairs.push((s("b.key"), text("B")));
    assert_eq!(sc.interepret_as_diagnostic_array(&img, LE, 2), vec![with_pairs]);
}
