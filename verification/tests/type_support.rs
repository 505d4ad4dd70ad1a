use modality_ros_hook::introspection::{
    MessageMemberImage, MessageMembersImage, RosIdlTypesupportIntrospectionCFieldTypes, RosServiceSchema,
    ServiceMembersImage, ServiceTypeSupportImage, TypeSupportImage, convert_c_message_members_to_schemas,
    is_introspection_identifier, ROS_TYPE_FLOAT, ROS_TYPE_INT64, ROS_TYPE_MESSAGE, ROS_TYPE_STRING,
};
use modality_ros_hook::schema::{FlatRosMessageMemberSchema, RosMessageMemberSchema, RosMessageSchema};

fn member(name: &str, type_id: u32, offset: u32) -> MessageMemberImage {
    MessageMemberImage {
        name: name.as_bytes().to_vec(),
        type_id: type_id as u8,
        offset,
        is_array: false,
        array_size: 0,
        is_upper_bound: false,
        size_function: None,
        get_const_function: None,
        nested: None,
    }
}

fn members_image(ns: &str, name: &str, size: usize, members: Vec<MessageMemberImage>) -> MessageMembersImage {
    MessageMembersImage {
        message_namespace: ns.as_bytes().to_vec(),
        message_name: name.as_bytes().to_vec(),
        size_of: size,
        members,
    }
}

fn c_type_support(members: MessageMembersImage) -> TypeSupportImage {
    TypeSupportImage {
        typesupport_identifier: b"rosidl_typesupport_introspection_c".to_vec(),
        members: Some(members),
    }
}

#[test]
fn byte_sizes_of_field_types() {
    type F = RosIdlTypesupportIntrospectionCFieldTypes;
    assert_eq!(F::Float.byte_size(), 4);
    assert_eq!(F::Double.byte_size(), 8);
    assert_eq!(F::LongDouble.byte_size(), 16);
    assert_eq!(F::Char.byte_size(), 1);
    assert_eq!(F::WChar.byte_size(), 2);
    assert_eq!(F::Boolean.byte_size(), 1);
    assert_eq!(F::UInt16.byte_size(), 2);
    assert_eq!(F::Int32.byte_size(), 4);
    assert_eq!(F::UInt64.byte_size(), 8);
    assert_eq!(F::String.byte_size(), 0);
    assert_eq!(F::WString.byte_size(), 0);
    assert_eq!(F::Message.byte_size(), 0);
}

#[test]
fn introspection_identifiers() {
    assert!(is_introspection_identifier(b"rosidl_typesupport_introspection_c"));
    assert!(is_introspection_identifier(b"rosidl_typesupport_introspection_cpp"));
    assert!(!is_introspection_identifier(b"rosidl_typesupport_fastrtps_c"));
    assert!(!is_introspection_identifier(b""));
}

#[test]
fn schema_from_type_support() {
    let header = members_image("std_msgs::msg", "Header", 16, vec![member("frame_id", ROS_TYPE_STRING, 8)]);
    let mut nested = member("header", ROS_TYPE_MESSAGE, 0);
    nested.nested = Some(Box::new(c_type_support(header)));
    let mut arr = member("values", ROS_TYPE_FLOAT, 16);
    arr.is_array = true;
    arr.array_size = 4;
    arr.get_const_function = Some(99);
    let ts = c_type_support(members_image("pkg::msg", "Reading", 48, vec![nested, arr, member("count", ROS_TYPE_INT64, 40)]));
    let schema = RosMessageSchema::from_message_type_support(ts).expect("an introspection type support");
    assert_eq!(schema.namespace, "pkg::msg");
    assert_eq!(schema.name, "Reading");
    assert_eq!(schema.size, 48);
    assert_eq!(schema.members.len(), 3);
    match &schema.members[0] {
        RosMessageMemberSchema::NestedMessage { name, offset, schema } => {
            assert_eq!(name, "header");
            assert_eq!(*offset, 0);
            assert_eq!(schema.name, "Header");
        }
        other => panic!("expected a nested message, got {other:?}"),
    }
    match &schema.members[1] {
        RosMessageMemberSchema::Array { offset, array_size, get_function, item_schema, .. } => {
            assert_eq!(*offset, 16);
            assert_eq!(*array_size, 4);
            assert_eq!(*get_function, Some(99));
            assert_eq!(item_schema.name(), "values");
        }
        other => panic!("expected an array, got {other:?}"),
    }
    let flat = schema.flatten(&vec![]);
    let keys: Vec<String> = flat
        .members
        .iter()
        .map(|m| match m {
            FlatRosMessageMemberSchema::Scalar(s) => s.key.clone(),
            FlatRosMessageMemberSchema::ScalarArray(a) => a.key.clone(),
            FlatRosMessageMemberSchema::MessageSequence(q) => q.key.clone(),
        })
        .collect();
    assert_eq!(keys, vec!["header.frame_id", "values", "count"]);
}

#[test]
fn unknown_type_support_gives_no_schema() {
    let ts = TypeSupportImage {
        typesupport_identifier: b"rosidl_typesupport_fastrtps_cpp".to_vec(),
        members: Some(members_image("a", "b", 0, vec![])),
    };
    assert!(RosMessageSchema::from_message_type_support(ts).is_none());
}

#[test]
fn nested_message_without_type_support_fails() {
    let ts = c_type_support(members_image("a", "b", 8, vec![member("inner", ROS_TYPE_MESSAGE, 0)]));
    assert!(RosMessageSchema::from_message_type_support(ts).is_none());
    assert!(convert_c_message_members_to_schemas(members_image("a", "b", 8, vec![member("inner", ROS_TYPE_MESSAGE, 0)])).is_none());
}

#[test]
fn service_schema_from_type_support() {
    let ts = ServiceTypeSupportImage {
        typesupport_identifier: b"rosidl_typesupport_introspection_cpp".to_vec(),
        members: Some(ServiceMembersImage {
            service_namespace: b"example_interfaces::srv".to_vec(),
            service_name: b"AddTwoInts".to_vec(),
            request_members: members_image("x", "Request", 16, vec![member("a", ROS_TYPE_INT64, 0), member("b", ROS_TYPE_INT64, 8)]),
            response_members: members_image("x", "Response", 8, vec![member("sum", ROS_TYPE_INT64, 0)]),
        }),
    };
    assert!(ts.is_flattenable());
    let s = RosServiceSchema::from_service_type_support(ts).expect("a service schema");
    assert_eq!(s.namespace, "example_interfaces::srv");
    assert_eq!(s.name, "AddTwoInts");
    assert_eq!(s.request_members.namespace, "example_interfaces::srv");
    assert_eq!(s.request_members.size, 16);
    assert_eq!(s.request_members.members.len(), 2);
    assert_eq!(s.response_members.size, 8);
    assert_eq!(s.response_members.members.len(), 1);
}
