//! Decoding of single ROS field values into attribute values.
use vstd::prelude::*;
use crate::attr::{AttrModel, AttrValue, new_big_int_attr_val, spec_big_int_attr_val};
use crate::introspection::{
    ROS_TYPE_BOOLEAN, ROS_TYPE_CHAR, ROS_TYPE_DOUBLE, ROS_TYPE_FLOAT, ROS_TYPE_INT16,
    ROS_TYPE_INT32, ROS_TYPE_INT64, ROS_TYPE_INT8, ROS_TYPE_OCTET, ROS_TYPE_STRING,
    ROS_TYPE_UINT16, ROS_TYPE_UINT32, ROS_TYPE_UINT64, ROS_TYPE_UINT8, ROS_TYPE_WCHAR,
    ROS_TYPE_WSTRING,
};
use crate::text::{spec_utf8_lossy, string_push, utf8_lossy};

verus! {

// ---------------------------------------------------------------------
// Trusted primitives
// ---------------------------------------------------------------------

/// Whether `v` is a Unicode scalar value (a valid `char`).
pub open spec fn is_scalar_value(v: int) -> bool {
    (0 <= v < 0xD800) || (0xE000 <= v <= 0x10FFFF)
}

/// `char::from_u32`: the char with that code point, `None` for surrogates
/// and values past U+10FFFF.
#[verifier::external_body]
fn char_from_u32(v: u32) -> (r: Option<char>)
    ensures
        r == (if is_scalar_value(v as int) { Some(v as char) } else { None::<char> }),
{
    char::from_u32(v)
}

/// Strict UTF-16 decoding: `None` at an unpaired surrogate.
pub open spec fn spec_utf16_decode(u: Seq<u16>) -> Option<Seq<char>>
    decreases u.len(),
{
    if u.len() == 0 {
        Some(Seq::empty())
    } else if u[0] < 0xD800 || u[0] > 0xDFFF {
        match spec_utf16_decode(u.drop_first()) {
            Some(rest) => Some(seq![(u[0] as u32) as char] + rest),
            None => None,
        }
    } else if u[0] <= 0xDBFF && u.len() >= 2 && 0xDC00 <= u[1] && u[1] <= 0xDFFF {
        match spec_utf16_decode(u.skip(2)) {
            Some(rest) => Some(
                seq![((0x10000 + (u[0] - 0xD800) * 0x400 + (u[1] - 0xDC00)) as u32) as char] + rest,
            ),
            None => None,
        }
    } else {
        None
    }
}

/// `widestring::U16Str::to_string`: decodes the units as UTF-16, failing at
/// the first unpaired surrogate (the units hold no NUL terminator).
#[verifier::external_body]
fn utf16_to_string(units: &[u16]) -> (r: Option<String>)
    ensures
        r is Some <==> spec_utf16_decode(units@) is Some,
        r matches Some(s) ==> s@ == spec_utf16_decode(units@).unwrap(),
{
    widestring::U16Str::from_slice(units).to_string().ok()
}

// ---------------------------------------------------------------------
// Platform facts and raw field data
// ---------------------------------------------------------------------

/// The facts about the machine that the layout of field values depends on.
#[derive(Debug, Clone, Copy, PartialEq, Eq, Structural)]
pub struct Platform {
    /// Whether multi-byte values are stored least significant byte first.
    pub little_endian: bool,
}

/// How the value of a field of a given type is stored.
#[derive(Debug, Clone, Copy, PartialEq, Eq, Structural)]
pub enum ScalarStorage {
    /// The value is the given number of bytes stored at the field.
    Inline(usize),
    /// The field is a rosidl `String`: a pointer to NUL-terminated bytes.
    Text,
    /// The field is a rosidl `U16String`: a pointer to NUL-terminated units.
    WideText,
    /// The type is not one whose values the library reads.
    Unsupported,
}

/// What is read of one field value.
#[derive(Debug)]
pub enum RawScalar {
    /// The bytes stored at the field (at least as many as its width).
    Inline(Vec<u8>),
    /// The bytes of a rosidl `String`, up to its NUL.
    Text(Vec<u8>),
    /// The UTF-16 units of a rosidl `U16String`, up to its NUL.
    WideText(Vec<u16>),
    /// Nothing was read.
    NotRead,
}

pub open spec fn spec_scalar_storage(type_id: u32) -> ScalarStorage {
    if type_id == ROS_TYPE_STRING {
        ScalarStorage::Text
    } else if type_id == ROS_TYPE_WSTRING {
        ScalarStorage::WideText
    } else if type_id == ROS_TYPE_FLOAT || type_id == ROS_TYPE_UINT32 || type_id == ROS_TYPE_INT32 {
        ScalarStorage::Inline(4)
    } else if type_id == ROS_TYPE_DOUBLE || type_id == ROS_TYPE_UINT64 || type_id == ROS_TYPE_INT64 {
        ScalarStorage::Inline(8)
    } else if type_id == ROS_TYPE_WCHAR || type_id == ROS_TYPE_UINT16 || type_id == ROS_TYPE_INT16 {
        ScalarStorage::Inline(2)
    } else if type_id == ROS_TYPE_CHAR || type_id == ROS_TYPE_BOOLEAN || type_id == ROS_TYPE_OCTET
        || type_id == ROS_TYPE_UINT8 || type_id == ROS_TYPE_INT8 {
        ScalarStorage::Inline(1)
    } else {
        ScalarStorage::Unsupported
    }
}

/// How the value of a field of type `type_id` is stored, hence what must be
/// read of it.
pub fn scalar_storage(type_id: u32) -> (r: ScalarStorage)
    ensures
        r == spec_scalar_storage(type_id),
{
    if type_id == ROS_TYPE_STRING {
        ScalarStorage::Text
    } else if type_id == ROS_TYPE_WSTRING {
        ScalarStorage::WideText
    } else if type_id == ROS_TYPE_FLOAT || type_id == ROS_TYPE_UINT32 || type_id == ROS_TYPE_INT32 {
        ScalarStorage::Inline(4)
    } else if type_id == ROS_TYPE_DOUBLE || type_id == ROS_TYPE_UINT64 || type_id == ROS_TYPE_INT64 {
        ScalarStorage::Inline(8)
    } else if type_id == ROS_TYPE_WCHAR || type_id == ROS_TYPE_UINT16 || type_id == ROS_TYPE_INT16 {
        ScalarStorage::Inline(2)
    } else if type_id == ROS_TYPE_CHAR || type_id == ROS_TYPE_BOOLEAN || type_id == ROS_TYPE_OCTET
        || type_id == ROS_TYPE_UINT8 || type_id == ROS_TYPE_INT8 {
        ScalarStorage::Inline(1)
    } else {
        ScalarStorage::Unsupported
    }
}

// ---------------------------------------------------------------------
// Integers from bytes
// ---------------------------------------------------------------------

/// The unsigned value of bytes stored least significant first.
pub open spec fn spec_le_value(b: Seq<u8>) -> nat
    decreases b.len(),
{
    if b.len() == 0 {
        0
    } else {
        b[0] as nat + 256 * spec_le_value(b.drop_first())
    }
}

/// The unsigned value of the first `width` bytes in the platform's order.
pub open spec fn spec_unsigned(b: Seq<u8>, width: nat, little_endian: bool) -> nat {
    if little_endian {
        spec_le_value(b.take(width as int))
    } else {
        spec_le_value(b.take(width as int).reverse())
    }
}

/// Two's complement reading of an unsigned value of `width` bytes.
pub open spec fn spec_signed(u: nat, width: nat) -> int {
    let half: int = if width == 1 {
        0x80
    } else if width == 2 {
        0x8000
    } else if width == 4 {
        0x8000_0000
    } else {
        0x8000_0000_0000_0000
    };
    if u >= half {
        u - 2 * half
    } else {
        u as int
    }
}

pub open spec fn pow256(n: nat) -> nat
    decreases n,
{
    if n == 0 {
        1
    } else {
        256 * pow256((n - 1) as nat)
    }
}

proof fn lemma_le_value_bound(b: Seq<u8>)
    ensures
        spec_le_value(b) < pow256(b.len()),
    decreases b.len(),
{
    if b.len() > 0 {
        lemma_le_value_bound(b.drop_first());
        let v = spec_le_value(b.drop_first());
        let p = pow256(b.drop_first().len());
        let x = b[0] as nat;
        assert(x + 256 * v < 256 * p) by (nonlinear_arith)
            requires
                v < p,
                x < 256,
        ;
    }
}

proof fn lemma_pow256_values()
    ensures
        pow256(1) == 0x100,
        pow256(2) == 0x1_0000,
        pow256(4) == 0x1_0000_0000,
        pow256(8) == 0x1_0000_0000_0000_0000,
{
    reveal_with_fuel(pow256, 9);
}

proof fn lemma_pow256_mono(a: nat, b: nat)
    requires
        a <= b,
    ensures
        pow256(a) <= pow256(b),
    decreases b,
{
    if a < b {
        lemma_pow256_mono(a, (b - 1) as nat);
    }
}

/// The unsigned value of the first `width` bytes, in the platform's order.
pub fn decode_unsigned(b: &[u8], width: usize, little_endian: bool) -> (r: u64)
    requires
        width <= 8,
        width <= b@.len(),
    ensures
        r == spec_unsigned(b@, width as nat, little_endian),
{
    let ghost t = b@.take(width as int);
    let mut acc: u64 = 0;
    if little_endian {
        let mut i = width;
        assert(t.subrange(width as int, width as int) =~= Seq::<u8>::empty());
        while i > 0
            invariant
                i <= width <= 8,
                width <= b@.len(),
                t == b@.take(width as int),
                acc == spec_le_value(t.subrange(i as int, width as int)),
            decreases i,
        {
            i = i - 1;
            let ghost s = t.subrange(i as int, width as int);
            proof {
                assert(s.drop_first() =~= t.subrange(i + 1, width as int));
                lemma_le_value_bound(s);
                lemma_pow256_values();
                lemma_pow256_mono(s.len(), 8);
            }
            acc = (b[i] as u64) + 256 * acc;
        }
        assert(t.subrange(0, width as int) =~= t);
    } else {
        let mut i: usize = 0;
        assert(t.take(0).reverse() =~= Seq::<u8>::empty());
        while i < width
            invariant
                i <= width <= 8,
                width <= b@.len(),
                t == b@.take(width as int),
                acc == spec_le_value(t.take(i as int).reverse()),
            decreases width - i,
        {
            let ghost s = t.take(i + 1).reverse();
            proof {
                assert(s.drop_first() =~= t.take(i as int).reverse());
                assert(s[0] == b@[i as int]);
                lemma_le_value_bound(s);
                lemma_pow256_values();
                lemma_pow256_mono(s.len(), 8);
            }
            acc = (b[i] as u64) + 256 * acc;
            i = i + 1;
        }
        assert(t.take(width as int) =~= t);
    }
    proof {
        assert(b@.take(width as int) == t);
    }
    acc
}

/// The signed value of the first `width` bytes (1, 2, 4 or 8).
pub fn decode_signed(b: &[u8], width: usize, little_endian: bool) -> (r: i64)
    requires
        width == 1 || width == 2 || width == 4 || width == 8,
        width <= b@.len(),
    ensures
        r == spec_signed(spec_unsigned(b@, width as nat, little_endian), width as nat),
{
    let u = decode_unsigned(b, width, little_endian);
    proof {
        lemma_le_value_bound(if little_endian { b@.take(width as int) } else { b@.take(width as int).reverse() });
        lemma_pow256_values();
    }
    let half: u64 = if width == 1 {
        0x80
    } else if width == 2 {
        0x8000
    } else if width == 4 {
        0x8000_0000
    } else {
        0x8000_0000_0000_0000
    };
    if u >= half {
        ((u as i128) - 2 * (half as i128)) as i64
    } else {
        u as i64
    }
}

// ---------------------------------------------------------------------
// Field values
// ---------------------------------------------------------------------

/// The model of what was read of a field value.
pub enum RawScalarModel {
    Inline(Seq<u8>),
    Text(Seq<u8>),
    WideText(Seq<u16>),
    NotRead,
}

impl View for RawScalar {
    type V = RawScalarModel;

    open spec fn view(&self) -> RawScalarModel {
        match self {
            RawScalar::Inline(b) => RawScalarModel::Inline(b@),
            RawScalar::Text(b) => RawScalarModel::Text(b@),
            RawScalar::WideText(u) => RawScalarModel::WideText(u@),
            RawScalar::NotRead => RawScalarModel::NotRead,
        }
    }
}

/// The one-char string that `String::from_utf16_lossy` makes of a single
/// UTF-16 unit: the replacement character for a lone surrogate.
pub open spec fn spec_wchar_text(w: u16) -> Seq<char> {
    if 0xD800 <= w && w <= 0xDFFF {
        seq!['\u{FFFD}']
    } else {
        seq![(w as u32) as char]
    }
}

/// The attribute value for an inline field of type `type_id` stored in `b`.
pub open spec fn spec_inline_attr(type_id: u32, b: Seq<u8>, p: Platform) -> Option<AttrModel> {
    let le = p.little_endian;
    if type_id == ROS_TYPE_FLOAT {
        Some(AttrModel::Float32Bits(spec_unsigned(b, 4, le) as u32))
    } else if type_id == ROS_TYPE_DOUBLE {
        Some(AttrModel::Float64Bits(spec_unsigned(b, 8, le) as u64))
    } else if type_id == ROS_TYPE_CHAR {
        Some(AttrModel::String(seq![(b[0] as u32) as char]))
    } else if type_id == ROS_TYPE_WCHAR {
        Some(AttrModel::String(spec_wchar_text(spec_unsigned(b, 2, le) as u16)))
    } else if type_id == ROS_TYPE_BOOLEAN {
        Some(AttrModel::Bool(b[0] != 0))
    } else if type_id == ROS_TYPE_OCTET || type_id == ROS_TYPE_UINT8 {
        Some(AttrModel::Integer(b[0] as i64))
    } else if type_id == ROS_TYPE_INT8 {
        Some(AttrModel::Integer(spec_signed(b[0] as nat, 1) as i64))
    } else if type_id == ROS_TYPE_UINT16 {
        Some(AttrModel::Integer(spec_unsigned(b, 2, le) as i64))
    } else if type_id == ROS_TYPE_INT16 {
        Some(AttrModel::Integer(spec_signed(spec_unsigned(b, 2, le), 2) as i64))
    } else if type_id == ROS_TYPE_UINT32 {
        Some(AttrModel::Integer(spec_unsigned(b, 4, le) as i64))
    } else if type_id == ROS_TYPE_INT32 {
        Some(AttrModel::Integer(spec_signed(spec_unsigned(b, 4, le), 4) as i64))
    } else if type_id == ROS_TYPE_UINT64 {
        Some(spec_big_int_attr_val(spec_unsigned(b, 8, le) as int)@)
    } else if type_id == ROS_TYPE_INT64 {
        Some(AttrModel::Integer(spec_signed(spec_unsigned(b, 8, le), 8) as i64))
    } else {
        None
    }
}

/// The attribute value of a field of type `type_id`, given what was read of
/// it; `None` when the type has no attribute form (long double, message,
/// unknown codes), when a wide string is not valid UTF-16, or when what was
/// read does not match the type's storage.
pub open spec fn spec_ros_to_attr_val(type_id: u32, raw: RawScalarModel, p: Platform) -> Option<AttrModel> {
    match spec_scalar_storage(type_id) {
        ScalarStorage::Text => match raw {
            RawScalarModel::Text(b) => Some(AttrModel::String(spec_utf8_lossy(b))),
            _ => None,
        },
        ScalarStorage::WideText => match raw {
            RawScalarModel::WideText(u) => match spec_utf16_decode(u) {
                Some(s) => Some(AttrModel::String(s)),
                None => None,
            },
            _ => None,
        },
        ScalarStorage::Inline(width) => match raw {
            RawScalarModel::Inline(b) => if b.len() >= width {
                spec_inline_attr(type_id, b, p)
            } else {
                None
            },
            _ => None,
        },
        ScalarStorage::Unsupported => None,
    }
}

fn wchar_text(w: u16) -> (r: String)
    ensures
        r@ == spec_wchar_text(w),
{
    let mut out = String::new();
    match char_from_u32(w as u32) {
        Some(c) => string_push(&mut out, c),
        None => string_push(&mut out, '\u{FFFD}'),
    }
    assert(out@ =~= spec_wchar_text(w));
    out
}

/// The one-char string of a C `char` (an unsigned byte): the character
/// with that code point.
fn byte_char_text(c: u8) -> (r: String)
    ensures
        r@ == seq![(c as u32) as char],
{
    let mut out = String::new();
    match char_from_u32(c as u32) {
        Some(ch) => string_push(&mut out, ch),
        None => {},
    }
    out
}

fn inline_attr(type_id: u32, b: &[u8], p: Platform) -> (r: Option<AttrValue>)
    requires
        spec_scalar_storage(type_id) matches ScalarStorage::Inline(width) && width <= b@.len(),
    ensures
        r matches Some(v) ==> spec_inline_attr(type_id, b@, p) == Some(v@),
        r is None ==> spec_inline_attr(type_id, b@, p) is None,
{
    let le = p.little_endian;
    if type_id == ROS_TYPE_FLOAT {
        Some(AttrValue::Float32Bits(decode_unsigned(b, 4, le) as u32))
    } else if type_id == ROS_TYPE_DOUBLE {
        Some(AttrValue::Float64Bits(decode_unsigned(b, 8, le)))
    } else if type_id == ROS_TYPE_CHAR {
        Some(AttrValue::String(byte_char_text(b[0])))
    } else if type_id == ROS_TYPE_WCHAR {
        let w = decode_unsigned(b, 2, le);
        proof {
            lemma_le_value_bound(if le { b@.take(2) } else { b@.take(2).reverse() });
            lemma_pow256_values();
        }
        Some(AttrValue::String(wchar_text(w as u16)))
    } else if type_id == ROS_TYPE_BOOLEAN {
        Some(AttrValue::Bool(b[0] != 0))
    } else if type_id == ROS_TYPE_OCTET || type_id == ROS_TYPE_UINT8 {
        Some(AttrValue::Integer(b[0] as i64))
    } else if type_id == ROS_TYPE_INT8 {
        let v = decode_signed(b, 1, le);
        proof {
            assert(b@.take(1) =~= seq![b@[0]]);
            assert(b@.take(1).reverse() =~= seq![b@[0]]);
            assert(spec_le_value(seq![b@[0]]) == b@[0] as nat) by {
                assert(seq![b@[0]].drop_first() =~= Seq::<u8>::empty());
                reveal_with_fuel(spec_le_value, 2);
            }
        }
        Some(AttrValue::Integer(v))
    } else if type_id == ROS_TYPE_UINT16 {
        Some(AttrValue::Integer(decode_unsigned(b, 2, le) as i64))
    } else if type_id == ROS_TYPE_INT16 {
        Some(AttrValue::Integer(decode_signed(b, 2, le)))
    } else if type_id == ROS_TYPE_UINT32 {
        let v = decode_unsigned(b, 4, le);
        proof {
            lemma_le_value_bound(if le { b@.take(4) } else { b@.take(4).reverse() });
            lemma_pow256_values();
        }
        Some(AttrValue::Integer(v as i64))
    } else if type_id == ROS_TYPE_INT32 {
        Some(AttrValue::Integer(decode_signed(b, 4, le)))
    } else if type_id == ROS_TYPE_UINT64 {
        Some(new_big_int_attr_val(decode_unsigned(b, 8, le) as i128))
    } else if type_id == ROS_TYPE_INT64 {
        Some(AttrValue::Integer(decode_signed(b, 8, le)))
    } else {
        None
    }
}

/// The attribute value of a field of type `type_id`, given what was read
/// of it on a machine described by `platform`.
pub fn ros_to_attr_val(type_id: u32, raw: &RawScalar, platform: Platform) -> (r: Option<AttrValue>)
    ensures
        r matches Some(v) ==> spec_ros_to_attr_val(type_id, raw@, platform) == Some(v@),
        r is None ==> spec_ros_to_attr_val(type_id, raw@, platform) is None,
{
    match scalar_storage(type_id) {
        ScalarStorage::Text => match raw {
            RawScalar::Text(b) => Some(AttrValue::String(utf8_lossy(b.as_slice()))),
            _ => None,
        },
        ScalarStorage::WideText => match raw {
            RawScalar::WideText(u) => match utf16_to_string(u.as_slice()) {
                Some(s) => Some(AttrValue::String(s)),
                None => None,
            },
            _ => None,
        },
        ScalarStorage::Inline(width) => match raw {
            RawScalar::Inline(b) => {
                if b.len() >= width {
                    inline_attr(type_id, b.as_slice(), platform)
                } else {
                    None
                }
            },
            _ => None,
        },
        ScalarStorage::Unsupported => None,
    }
}

// ---------------------------------------------------------------------
// Integer fields keep their values
// ---------------------------------------------------------------------

/// Whether `type_id` is one of the integer field types.
pub open spec fn is_integer_type(type_id: u32) -> bool {
    type_id == ROS_TYPE_OCTET || type_id == ROS_TYPE_UINT8 || type_id == ROS_TYPE_INT8
        || type_id == ROS_TYPE_UINT16 || type_id == ROS_TYPE_INT16 || type_id == ROS_TYPE_UINT32
        || type_id == ROS_TYPE_INT32 || type_id == ROS_TYPE_UINT64 || type_id == ROS_TYPE_INT64
}

/// The number an integer field of type `type_id` holds, stored in `b`.
pub open spec fn spec_integer_value(type_id: u32, b: Seq<u8>, little_endian: bool) -> int {
    if type_id == ROS_TYPE_OCTET || type_id == ROS_TYPE_UINT8 {
        b[0] as int
    } else if type_id == ROS_TYPE_INT8 {
        spec_signed(b[0] as nat, 1)
    } else if type_id == ROS_TYPE_UINT16 {
        spec_unsigned(b, 2, little_endian) as int
    } else if type_id == ROS_TYPE_INT16 {
        spec_signed(spec_unsigned(b, 2, little_endian), 2)
    } else if type_id == ROS_TYPE_UINT32 {
        spec_unsigned(b, 4, little_endian) as int
    } else if type_id == ROS_TYPE_INT32 {
        spec_signed(spec_unsigned(b, 4, little_endian), 4)
    } else if type_id == ROS_TYPE_UINT64 {
        spec_unsigned(b, 8, little_endian) as int
    } else {
        spec_signed(spec_unsigned(b, 8, little_endian), 8)
    }
}

proof fn lemma_unsigned_bound(b: Seq<u8>, width: nat, little_endian: bool)
    requires
        width <= b.len(),
    ensures
        spec_unsigned(b, width, little_endian) < pow256(width),
{
    lemma_le_value_bound(b.take(width as int));
    lemma_le_value_bound(b.take(width as int).reverse());
}

/// Four bytes, least significant first.
proof fn lemma_le_value_4(s: Seq<u8>)
    requires
        s.len() == 4,
    ensures
        spec_le_value(s) == s[0] + 0x100 * s[1] + 0x1_0000 * s[2] + 0x100_0000 * s[3],
{
    let s1 = s.drop_first();
    let s2 = s1.drop_first();
    let s3 = s2.drop_first();
    let s4 = s3.drop_first();
    assert(s4.len() == 0);
    assert(spec_le_value(s4) == 0);
    assert(spec_le_value(s3) == s[3]);
    assert(spec_le_value(s2) == s[2] + 0x100 * s[3]);
    assert(spec_le_value(s1) == s[1] + 0x100 * s[2] + 0x1_0000 * s[3]);
}

/// Eight bytes, least significant first.
proof fn lemma_le_value_8(s: Seq<u8>)
    requires
        s.len() == 8,
    ensures
        spec_le_value(s) == s[0] + 0x100 * s[1] + 0x1_0000 * s[2] + 0x100_0000 * s[3] + 0x1_0000_0000 * s[4]
            + 0x100_0000_0000 * s[5] + 0x1_0000_0000_0000 * s[6] + 0x100_0000_0000_0000 * s[7],
{
    let s1 = s.drop_first();
    let s2 = s1.drop_first();
    let s3 = s2.drop_first();
    let s4 = s3.drop_first();
    lemma_le_value_4(s4);
    assert(spec_le_value(s3) == s[3] + 0x100 * spec_le_value(s4));
    assert(spec_le_value(s2) == s[2] + 0x100 * spec_le_value(s3));
    assert(spec_le_value(s1) == s[1] + 0x100 * spec_le_value(s2));
}

/// A `float32` field becomes exactly the bit pattern of its four stored
/// bytes, read in the platform's byte order: every bit is kept, the sign
/// and exponent included. A `float64` field likewise keeps its eight bytes.
pub proof fn lemma_float_fields_keep_their_bits(b: Seq<u8>, p: Platform)
    requires
        b.len() >= 4,
    ensures
        spec_ros_to_attr_val(ROS_TYPE_FLOAT, RawScalarModel::Inline(b), p) matches Some(AttrModel::Float32Bits(x))
            && x as int == if p.little_endian {
            b[0] + 0x100 * b[1] + 0x1_0000 * b[2] + 0x100_0000 * b[3]
        } else {
            b[3] + 0x100 * b[2] + 0x1_0000 * b[1] + 0x100_0000 * b[0]
        },
        b.len() >= 8 ==> (spec_ros_to_attr_val(ROS_TYPE_DOUBLE, RawScalarModel::Inline(b), p) matches Some(
            AttrModel::Float64Bits(x),
        ) && x as int == if p.little_endian {
            b[0] + 0x100 * b[1] + 0x1_0000 * b[2] + 0x100_0000 * b[3] + 0x1_0000_0000 * b[4] + 0x100_0000_0000
                * b[5] + 0x1_0000_0000_0000 * b[6] + 0x100_0000_0000_0000 * b[7]
        } else {
            b[7] + 0x100 * b[6] + 0x1_0000 * b[5] + 0x100_0000 * b[4] + 0x1_0000_0000 * b[3] + 0x100_0000_0000
                * b[2] + 0x1_0000_0000_0000 * b[1] + 0x100_0000_0000_0000 * b[0]
        }),
{
    let t4 = b.take(4);
    let r4 = t4.reverse();
    lemma_le_value_4(t4);
    lemma_le_value_4(r4);
    assert(r4[0] == b[3] && r4[1] == b[2] && r4[2] == b[1] && r4[3] == b[0]);
    lemma_unsigned_bound(b, 4, p.little_endian);
    lemma_pow256_values();
    if b.len() >= 8 {
        let t8 = b.take(8);
        let r8 = t8.reverse();
        lemma_le_value_8(t8);
        lemma_le_value_8(r8);
        assert(r8[0] == b[7] && r8[1] == b[6] && r8[2] == b[5] && r8[3] == b[4]);
        assert(r8[4] == b[3] && r8[5] == b[2] && r8[6] == b[1] && r8[7] == b[0]);
        lemma_unsigned_bound(b, 8, p.little_endian);
    }
}

/// Every integer field becomes an integer attribute holding exactly the
/// field's number: a 64-bit `Integer`, or a `BigInt` for a `uint64` value
/// past the largest 64-bit signed integer.
pub proof fn lemma_integer_fields_keep_their_value(type_id: u32, b: Seq<u8>, p: Platform)
    requires
        is_integer_type(type_id),
        spec_scalar_storage(type_id) matches ScalarStorage::Inline(width) && b.len() >= width,
    ensures
        match spec_ros_to_attr_val(type_id, RawScalarModel::Inline(b), p) {
            Some(AttrModel::Integer(i)) => i as int == spec_integer_value(type_id, b, p.little_endian),
            Some(AttrModel::BigInt(i)) => {
                &&& type_id == ROS_TYPE_UINT64
                &&& i as int == spec_integer_value(type_id, b, p.little_endian)
                &&& i > i64::MAX
            },
            _ => false,
        },
{
    let le = p.little_endian;
    lemma_pow256_values();
    if b.len() >= 2 {
        lemma_unsigned_bound(b, 2, le);
    }
    if b.len() >= 4 {
        lemma_unsigned_bound(b, 4, le);
    }
    if b.len() >= 8 {
        lemma_unsigned_bound(b, 8, le);
    }
}

} // verus!
