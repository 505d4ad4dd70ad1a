//! Attribute values, as the library produces them for Modality events.
use vstd::prelude::*;
use crate::text::{i128_to_decimal, spec_decimal, spec_signed_decimal, string_push, u128_to_decimal};

verus! {

/// An attribute value, as it is handed to the Modality ingest client.
///
/// Floating point payloads are carried as their IEEE-754 bit patterns: a
/// `float` field as the 32 bits it was stored with, a `double` as its 64
/// bits. Whoever talks to the ingest client turns them into 64-bit floats.
#[derive(Debug, Clone, PartialEq)]
pub enum AttrValue {
    String(String),
    Integer(i64),
    BigInt(i128),
    Float32Bits(u32),
    Float64Bits(u64),
    Bool(bool),
    /// Nanoseconds since the Unix epoch.
    Timestamp(u64),
}

impl AttrValue {
    /// A copy of the value.
    pub fn duplicate(&self) -> (r: AttrValue)
        ensures
            r == *self,
    {
        match self {
            AttrValue::String(s) => AttrValue::String(s.clone()),
            AttrValue::Integer(i) => AttrValue::Integer(*i),
            AttrValue::BigInt(i) => AttrValue::BigInt(*i),
            AttrValue::Float32Bits(b) => AttrValue::Float32Bits(*b),
            AttrValue::Float64Bits(b) => AttrValue::Float64Bits(*b),
            AttrValue::Bool(b) => AttrValue::Bool(*b),
            AttrValue::Timestamp(t) => AttrValue::Timestamp(*t),
        }
    }

    /// The value as text, as its `Display` renders it (a timestamp shows as
    /// its nanoseconds followed by `ns`).
    pub fn display_text(&self) -> (r: Option<String>)
        ensures
            r.is_some() == spec_display_model(self@).is_some(),
            r matches Some(t) ==> t@ == spec_display_model(self@).unwrap(),
    {
        match self {
            AttrValue::String(s) => Some(s.clone()),
            AttrValue::Integer(i) => Some(i128_to_decimal(*i as i128)),
            AttrValue::BigInt(i) => Some(i128_to_decimal(*i)),
            AttrValue::Bool(b) => {
                let mut out = String::new();
                if *b {
                    string_push(&mut out, 't');
                    string_push(&mut out, 'r');
                    string_push(&mut out, 'u');
                    string_push(&mut out, 'e');
                    assert(out@ =~= seq!['t', 'r', 'u', 'e']);
                } else {
                    string_push(&mut out, 'f');
                    string_push(&mut out, 'a');
                    string_push(&mut out, 'l');
                    string_push(&mut out, 's');
                    string_push(&mut out, 'e');
                    assert(out@ =~= seq!['f', 'a', 'l', 's', 'e']);
                }
                Some(out)
            },
            AttrValue::Timestamp(t) => {
                let mut out = u128_to_decimal(*t as u128);
                string_push(&mut out, 'n');
                string_push(&mut out, 's');
                assert(out@ =~= spec_decimal(*t as nat) + seq!['n', 's']);
                Some(out)
            },
            AttrValue::Float32Bits(_) => None,
            AttrValue::Float64Bits(_) => None,
        }
    }
}

/// The text that a value displays as; `None` for floating point values,
/// whose rendering is left to the code that holds them as floats.
pub open spec fn spec_display_model(v: AttrModel) -> Option<Seq<char>> {
    match v {
        AttrModel::String(s) => Some(s),
        AttrModel::Integer(i) => Some(spec_signed_decimal(i as int)),
        AttrModel::BigInt(i) => Some(spec_signed_decimal(i as int)),
        AttrModel::Bool(b) => Some(if b { seq!['t', 'r', 'u', 'e'] } else { seq!['f', 'a', 'l', 's', 'e'] }),
        AttrModel::Timestamp(t) => Some(spec_decimal(t as nat) + seq!['n', 's']),
        AttrModel::Float32Bits(_) => None,
        AttrModel::Float64Bits(_) => None,
    }
}

/// The attribute value for a 128-bit integer: an `Integer` when it fits in
/// 64 signed bits, a `BigInt` otherwise.
pub open spec fn spec_big_int_attr_val(big_i: int) -> AttrValue {
    if big_i < i64::MIN || big_i > i64::MAX {
        AttrValue::BigInt(big_i as i128)
    } else {
        AttrValue::Integer(big_i as i64)
    }
}

/// Stores a 128-bit integer as an `Integer` if it's small enough, else as a `BigInt`.
pub fn new_big_int_attr_val(big_i: i128) -> (r: AttrValue)
    ensures
        r == spec_big_int_attr_val(big_i as int),
{
    if big_i < (i64::MIN as i128) || big_i > (i64::MAX as i128) {
        AttrValue::BigInt(big_i)
    } else {
        AttrValue::Integer(big_i as i64)
    }
}

/// A key paired with its value.
pub type KeyValue = (String, AttrValue);

/// A copy of a list of key/value pairs.
pub fn duplicate_kvs(kvs: &Vec<KeyValue>) -> (r: Vec<KeyValue>)
    ensures
        r@ == kvs@,
{
    let mut out: Vec<KeyValue> = Vec::new();
    let n = kvs.len();
    for i in 0..n
        invariant
            n == kvs@.len(),
            out@ == kvs@.take(i as int),
    {
        let k = kvs[i].0.clone();
        let v = kvs[i].1.duplicate();
        out.push((k, v));
        proof {
            assert(out@ =~= kvs@.take(i + 1));
        }
    }
    assert(kvs@.take(n as int) =~= kvs@);
    out
}

/// The mathematical model of an attribute value: strings as char sequences.
pub enum AttrModel {
    String(Seq<char>),
    Integer(i64),
    BigInt(i128),
    Float32Bits(u32),
    Float64Bits(u64),
    Bool(bool),
    Timestamp(u64),
}

impl View for AttrValue {
    type V = AttrModel;

    open spec fn view(&self) -> AttrModel {
        match self {
            AttrValue::String(s) => AttrModel::String(s@),
            AttrValue::Integer(i) => AttrModel::Integer(*i),
            AttrValue::BigInt(i) => AttrModel::BigInt(*i),
            AttrValue::Float32Bits(b) => AttrModel::Float32Bits(*b),
            AttrValue::Float64Bits(b) => AttrModel::Float64Bits(*b),
            AttrValue::Bool(b) => AttrModel::Bool(*b),
            AttrValue::Timestamp(t) => AttrModel::Timestamp(*t),
        }
    }
}

/// A key/value pair as sequences and models.
pub type KvModel = (Seq<char>, AttrModel);

pub open spec fn kv_model(kv: KeyValue) -> KvModel {
    (kv.0@, kv.1@)
}

/// The model of a list of key/value pairs.
pub open spec fn kvs_model(kvs: Seq<KeyValue>) -> Seq<KvModel> {
    kvs.map_values(|kv: KeyValue| kv_model(kv))
}

pub proof fn lemma_kvs_model_push(kvs: Seq<KeyValue>, kv: KeyValue)
    ensures
        kvs_model(kvs.push(kv)) == kvs_model(kvs).push(kv_model(kv)),
{
    assert(kvs_model(kvs.push(kv)) =~= kvs_model(kvs).push(kv_model(kv)));
}

} // verus!
