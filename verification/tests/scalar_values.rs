use modality_ros_hook::attr::{AttrValue, new_big_int_attr_val};
use modality_ros_hook::introspection::{
    ROS_TYPE_BOOLEAN, ROS_TYPE_CHAR, ROS_TYPE_DOUBLE, ROS_TYPE_FLOAT, ROS_TYPE_INT16, ROS_TYPE_INT32, ROS_TYPE_INT64,
    ROS_TYPE_INT8, ROS_TYPE_LONG_DOUBLE, ROS_TYPE_MESSAGE, ROS_TYPE_OCTET, ROS_TYPE_STRING, ROS_TYPE_UINT16,
    ROS_TYPE_UINT32, ROS_TYPE_UINT64, ROS_TYPE_UINT8, ROS_TYPE_WCHAR, ROS_TYPE_WSTRING,
};
use modality_ros_hook::scalar::{
    Platform, RawScalar, ScalarStorage, decode_signed, decode_unsigned, ros_to_attr_val, scalar_storage,
};

const LE: Platform = Platform { little_endian: true };
const BE: Platform = Platform { little_endian: false };

fn inline(b: &[u8]) -> RawScalar {
    RawScalar::Inline(b.to_vec())
}

#[test]
fn storage_of_each_type() {
    assert_eq!(scalar_storage(ROS_TYPE_STRING), ScalarStorage::Text);
    assert_eq!(scalar_storage(ROS_TYPE_WSTRING), ScalarStorage::WideText);
    assert_eq!(scalar_storage(ROS_TYPE_INT32), ScalarStorage::Inline(4));
    assert_eq!(scalar_storage(ROS_TYPE_UINT64), ScalarStorage::Inline(8));
    assert_eq!(scalar_storage(ROS_TYPE_WCHAR), ScalarStorage::Inline(2));
    assert_eq!(scalar_storage(ROS_TYPE_BOOLEAN), ScalarStorage::Inline(1));
    assert_eq!(scalar_storage(ROS_TYPE_LONG_DOUBLE), ScalarStorage::Unsupported);
    assert_eq!(scalar_storage(ROS_TYPE_MESSAGE), ScalarStorage::Unsupported);
    assert_eq!(scalar_storage(99), ScalarStorage::Unsupported);
}

#[test]
fn decoding_integers_in_both_orders() {
    assert_eq!(decode_unsigned(&[0x01, 0x02], 2, true), 0x0201);
    assert_eq!(decode_unsigned(&[0x01, 0x02], 2, false), 0x0102);
    assert_eq!(decode_unsigned(&[0xff; 8], 8, true), u64::MAX);
    assert_eq!(decode_signed(&[0xff, 0xff], 2, true), -1);
    assert_eq!(decode_signed(&[0x80], 1, true), -128);
    assert_eq!(decode_signed(&[0x00, 0x00, 0x00, 0x80], 4, true), i32::MIN as i64);
    assert_eq!(decode_signed(&[0x80, 0, 0, 0, 0, 0, 0, 0], 8, false), i64::MIN);
}

#[test]
fn integer_fields() {
    assert_eq!(ros_to_attr_val(ROS_TYPE_UINT8, &inline(&[200]), LE), Some(AttrValue::Integer(200)));
    assert_eq!(ros_to_attr_val(ROS_TYPE_OCTET, &inline(&[7]), LE), Some(AttrValue::Integer(7)));
    assert_eq!(ros_to_attr_val(ROS_TYPE_INT8, &inline(&[0xfe]), LE), Some(AttrValue::Integer(-2)));
    assert_eq!(ros_to_attr_val(ROS_TYPE_UINT16, &inline(&[0x34, 0x12]), LE), Some(AttrValue::Integer(0x1234)));
    assert_eq!(ros_to_attr_val(ROS_TYPE_UINT16, &inline(&[0x12, 0x34]), BE), Some(AttrValue::Integer(0x1234)));
    assert_eq!(ros_to_attr_val(ROS_TYPE_INT16, &inline(&[0x00, 0x80]), LE), Some(AttrValue::Integer(-32768)));
    assert_eq!(ros_to_attr_val(ROS_TYPE_UINT32, &inline(&[0xff; 4]), LE), Some(AttrValue::Integer(u32::MAX as i64)));
    assert_eq!(ros_to_attr_val(ROS_TYPE_INT32, &inline(&(-5i32).to_le_bytes()), LE), Some(AttrValue::Integer(-5)));
    assert_eq!(ros_to_attr_val(ROS_TYPE_INT64, &inline(&i64::MIN.to_le_bytes()), LE), Some(AttrValue::Integer(i64::MIN)));
}

#[test]
fn large_uint64_values_become_big_ints() {
    assert_eq!(ros_to_attr_val(ROS_TYPE_UINT64, &inline(&5u64.to_le_bytes()), LE), Some(AttrValue::Integer(5)));
    assert_eq!(
        ros_to_attr_val(ROS_TYPE_UINT64, &inline(&(i64::MAX as u64).to_le_bytes()), LE),
        Some(AttrValue::Integer(i64::MAX))
    );
    assert_eq!(
        ros_to_attr_val(ROS_TYPE_UINT64, &inline(&u64::MAX.to_le_bytes()), LE),
        Some(AttrValue::BigInt(u64::MAX as i128))
    );
    assert_eq!(new_big_int_attr_val(-1), AttrValue::Integer(-1));
    assert_eq!(new_big_int_attr_val(i64::MIN as i128 - 1), AttrValue::BigInt(i64::MIN as i128 - 1));
}

#[test]
fn floats_keep_their_bits() {
    assert_eq!(
        ros_to_attr_val(ROS_TYPE_FLOAT, &inline(&1.5f32.to_le_bytes()), LE),
        Some(AttrValue::Float32Bits(1.5f32.to_bits()))
    );
    assert_eq!(
        ros_to_attr_val(ROS_TYPE_DOUBLE, &inline(&(-2.25f64).to_be_bytes()), BE),
        Some(AttrValue::Float64Bits((-2.25f64).to_bits()))
    );
}

#[test]
fn text_fields() {
    assert_eq!(
        ros_to_attr_val(ROS_TYPE_STRING, &RawScalar::Text(b"hi".to_vec()), LE),
        Some(AttrValue::String("hi".to_string()))
    );
    assert_eq!(
        ros_to_attr_val(ROS_TYPE_STRING, &RawScalar::Text(vec![0x66, 0xff]), LE),
        Some(AttrValue::String("f\u{fffd}".to_string()))
    );
    let units: Vec<u16> = "wörld".encode_utf16().collect();
    assert_eq!(
        ros_to_attr_val(ROS_TYPE_WSTRING, &RawScalar::WideText(units), LE),
        Some(AttrValue::String("wörld".to_string()))
    );
    assert_eq!(ros_to_attr_val(ROS_TYPE_WSTRING, &RawScalar::WideText(vec![0xd800]), LE), None);
    assert_eq!(ros_to_attr_val(ROS_TYPE_WCHAR, &inline(&[0x41, 0x00]), LE), Some(AttrValue::String("A".to_string())));
    assert_eq!(ros_to_attr_val(ROS_TYPE_WCHAR, &inline(&[0x00, 0xd8]), LE), Some(AttrValue::String("\u{fffd}".to_string())));
}

#[test]
fn char_fields_become_their_character() {
    assert_eq!(ros_to_attr_val(ROS_TYPE_CHAR, &inline(&[65]), LE), Some(AttrValue::String("A".to_string())));
    assert_eq!(ros_to_attr_val(ROS_TYPE_CHAR, &inline(&[0xff]), LE), Some(AttrValue::String("\u{ff}".to_string())));
    assert_eq!(ros_to_attr_val(ROS_TYPE_CHAR, &inline(&[0x30]), BE), Some(AttrValue::String("0".to_string())));
}

#[test]
fn booleans() {
    assert_eq!(ros_to_attr_val(ROS_TYPE_BOOLEAN, &inline(&[0]), LE), Some(AttrValue::Bool(false)));
    assert_eq!(ros_to_attr_val(ROS_TYPE_BOOLEAN, &inline(&[3]), LE), Some(AttrValue::Bool(true)));
}

#[test]
fn values_without_attribute_form() {
    assert_eq!(ros_to_attr_val(ROS_TYPE_LONG_DOUBLE, &inline(&[0; 16]), LE), None);
    assert_eq!(ros_to_attr_val(ROS_TYPE_MESSAGE, &inline(&[0; 8]), LE), None);
    assert_eq!(ros_to_attr_val(ROS_TYPE_INT32, &inline(&[1, 2]), LE), None);
    assert_eq!(ros_to_attr_val(ROS_TYPE_INT32, &RawScalar::NotRead, LE), None);
    assert_eq!(ros_to_attr_val(ROS_TYPE_STRING, &inline(&[1]), LE), None);
}

#[test]
fn display_text_of_values() {
    assert_eq!(AttrValue::Integer(-3).display_text(), Some("-3".to_string()));
    assert_eq!(AttrValue::BigInt(1 << 70).display_text(), Some((1i128 << 70).to_string()));
    assert_eq!(AttrValue::Bool(true).display_text(), Some("true".to_string()));
    assert_eq!(AttrValue::Timestamp(15).display_text(), Some("15ns".to_string()));
    assert_eq!(AttrValue::String("x".to_string()).display_text(), Some("x".to_string()));
    assert_eq!(AttrValue::Float64Bits(0).display_text(), None);
    let v = AttrValue::String("dup".to_string());
    assert_eq!(v.duplicate(), v);
}
