use modality_ros_hook::introspection::{ROS_TYPE_DOUBLE, ROS_TYPE_INT32, ROS_TYPE_MESSAGE, ROS_TYPE_STRING};
use modality_ros_hook::schema::{
    FlatRosMessageMemberSchema, FlatRosMessageSchema, RosMessageMemberSchema, RosMessageSchema,
};

fn s(text: &str) -> String {
    text.to_string()
}

fn scalar(name: &str, type_id: u32, offset: usize) -> RosMessageMemberSchema {
    RosMessageMemberSchema::Scalar { name: name.to_string(), type_id, offset }
}

fn vector3() -> RosMessageSchema {
    RosMessageSchema {
        namespace: "geometry_msgs::msg".to_string(),
        name: "Vector3".to_string(),
        size: 24,
        members: vec![
            scalar("x", ROS_TYPE_DOUBLE, 0),
            scalar("y", ROS_TYPE_DOUBLE, 8),
            scalar("z", ROS_TYPE_DOUBLE, 16),
        ],
    }
}

fn twist() -> RosMessageSchema {
    RosMessageSchema {
        namespace: "geometry_msgs::msg".to_string(),
        name: "Twist".to_string(),
        size: 48,
        members: vec![
            RosMessageMemberSchema::NestedMessage { name: "linear".to_string(), offset: 0, schema: vector3() },
            RosMessageMemberSchema::NestedMessage { name: "angular".to_string(), offset: 24, schema: vector3() },
        ],
    }
}

fn scalar_keys_and_offsets(flat: &FlatRosMessageSchema) -> Vec<(String, usize)> {
    flat.members
        .iter()
        .map(|m| match m {
            FlatRosMessageMemberSchema::Scalar(s) => (s.key.clone(), s.offset),
            FlatRosMessageMemberSchema::ScalarArray(a) => (a.key.clone(), a.offset_in_item_slice),
            FlatRosMessageMemberSchema::MessageSequence(q) => (q.key.clone(), q.offset),
        })
        .collect()
}

#[test]
fn nested_fields_are_joined_with_dots() {
    let s = twist();
    assert!(s.is_flattenable());
    let flat = s.flatten(&vec![]);
    assert_eq!(flat.namespace, "geometry_msgs::msg");
    assert_eq!(flat.name, "Twist");
    assert_eq!(flat.size, 48);
    assert_eq!(
        scalar_keys_and_offsets(&flat),
        vec![
            ("linear.x".to_string(), 0),
            ("linear.y".to_string(), 8),
            ("linear.z".to_string(), 16),
            ("angular.x".to_string(), 24),
            ("angular.y".to_string(), 32),
            ("angular.z".to_string(), 40),
        ]
    );
}

#[test]
fn prefix_is_prepended() {
    let flat = vector3().flatten(&vec!["pose".to_string(), "position".to_string()]);
    assert_eq!(
        scalar_keys_and_offsets(&flat),
        vec![
            ("pose.position.x".to_string(), 0),
            ("pose.position.y".to_string(), 8),
            ("pose.position.z".to_string(), 16),
        ]
    );
}

#[test]
fn arrays_keep_their_shape() {
    let s = RosMessageSchema {
        namespace: "pkg::msg".to_string(),
        name: "Arrays".to_string(),
        size: 64,
        members: vec![
            RosMessageMemberSchema::Array {
                offset: 8,
                item_schema: Box::new(scalar("position", ROS_TYPE_INT32, 8)),
                array_size: 3,
                is_upper_bound: false,
                size_function: Some(1),
                get_function: Some(2),
            },
            RosMessageMemberSchema::Array {
                offset: 32,
                item_schema: Box::new(RosMessageMemberSchema::NestedMessage {
                    name: "points".to_string(),
                    offset: 32,
                    schema: vector3(),
                }),
                array_size: 0,
                is_upper_bound: false,
                size_function: Some(3),
                get_function: Some(4),
            },
        ],
    };
    assert_eq!(s.members[0].name(), "position");
    assert_eq!(s.members[1].name(), "points");
    let flat = s.flatten(&vec![]);
    assert_eq!(flat.members.len(), 2);
    match &flat.members[0] {
        FlatRosMessageMemberSchema::ScalarArray(a) => {
            assert_eq!(a.key, "position");
            assert_eq!(a.type_id, ROS_TYPE_INT32);
            assert_eq!(a.offset_in_item_slice, 8);
            assert_eq!(a.array_size, 3);
            assert_eq!(a.get_function, Some(2));
        }
        other => panic!("expected a scalar array, got {other:?}"),
    }
    match &flat.members[1] {
        FlatRosMessageMemberSchema::MessageSequence(q) => {
            assert_eq!(q.key, "points");
            assert_eq!(q.offset, 32);
            assert_eq!(q.message_schema.name, "Vector3");
            assert_eq!(
                scalar_keys_and_offsets(&q.message_schema),
                vec![("x".to_string(), 0), ("y".to_string(), 8), ("z".to_string(), 16)]
            );
        }
        other => panic!("expected a message sequence, got {other:?}"),
    }
}

#[test]
fn array_of_arrays_is_not_flattenable() {
    let s = RosMessageSchema {
        namespace: "pkg::msg".to_string(),
        name: "Odd".to_string(),
        size: 8,
        members: vec![RosMessageMemberSchema::Array {
            offset: 0,
            item_schema: Box::new(RosMessageMemberSchema::Array {
                offset: 0,
                item_schema: Box::new(scalar("v", ROS_TYPE_STRING, 0)),
                array_size: 2,
                is_upper_bound: false,
                size_function: None,
                get_function: None,
            }),
            array_size: 2,
            is_upper_bound: false,
            size_function: None,
            get_function: None,
        }],
    };
    assert!(!s.is_flattenable());
    let _ = ROS_TYPE_MESSAGE;
}

#[test]
fn flattening_from_members_directly() {
    let flat = FlatRosMessageSchema::from_nested_members(
        "std_msgs::msg".to_string(),
        "String".to_string(),
        24,
        vec![scalar("data", ROS_TYPE_STRING, 0)],
        &vec![],
    );
    assert_eq!(scalar_keys_and_offsets(&flat), vec![("data".to_string(), 0)]);
}

#[test]
fn arrays_inside_nested_messages_keep_their_position() {
    let inner = RosMessageSchema {
        namespace: s("pkg::msg"),
        name: s("Inner"),
        size: 32,
        members: vec![RosMessageMemberSchema::Array {
            offset: 8,
            item_schema: Box::new(scalar("values", ROS_TYPE_INT32, 8)),
            array_size: 4,
            is_upper_bound: false,
            size_function: Some(1),
            get_function: Some(2),
        }],
    };
    let outer = RosMessageSchema {
        namespace: s("pkg::msg"),
        name: s("Outer"),
        size: 48,
        members: vec![RosMessageMemberSchema::NestedMessage { name: s("inner"), offset: 16, schema: inner }],
    };
    let flat = outer.flatten(&vec![]);
    assert_eq!(scalar_keys_and_offsets(&flat), vec![("inner.values".to_string(), 24)]);
}
