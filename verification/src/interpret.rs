//! Interpretation of message payloads into event attributes.
//!
//! Payloads live in foreign memory. The code that reads it copies, member by
//! member as the flat schema lays them out, what the interpretation needs
//! into a [`MessageImage`]; the interpretation itself happens here.
use vstd::prelude::*;
use crate::attr::{
    AttrModel, AttrValue, KeyValue, KvModel, duplicate_kvs, kv_model, kvs_model,
    lemma_kvs_model_push, spec_display_model,
};
use crate::scalar::{Platform, RawScalar, RawScalarModel, ros_to_attr_val, spec_ros_to_attr_val};
use crate::schema::{
    FlatMemberModel, FlatRosMessageMemberSchema, FlatRosMessageSchema, FlatSchemaModel,
    MessageSequenceMemberSchema, flat_member_model, flat_members_model, flat_schema_model,
};
use crate::text::{normalize_string_for_attr_key, spec_normalized_attr_key};
use crate::text::{concatenate, push_str, spec_decimal, str_eq, string_push, to_owned_string, u128_to_decimal};

verus! {

broadcast use vstd::string::group_string_axioms;

// ---------------------------------------------------------------------
// Message images
// ---------------------------------------------------------------------

/// What was read of one member of a message, as its flat schema describes it.
#[derive(Debug)]
pub enum MemberImage {
    /// The value of a scalar member.
    Scalar(RawScalar),
    /// A scalar array: the length stored in its sequence header (read for a
    /// dynamic or bounded sequence) and the items that were read.
    ScalarArray { stored_len: usize, items: Vec<RawScalar> },
    /// A message sequence: the number of items it holds (as its size
    /// function reports it) and the item messages that were read, in order.
    MessageSequence { stored_len: usize, items: Vec<MessageImage> },
    /// Nothing was read.
    Unread,
}

/// What was read of one message: an image per member of its flat schema.
#[derive(Debug)]
pub struct MessageImage {
    pub members: Vec<MemberImage>,
}

/// The image of member `j`, or nothing when the image has no such member.
pub open spec fn member_image_at(imgs: Seq<MemberImage>, j: int) -> MemberImage {
    if 0 <= j < imgs.len() {
        imgs[j]
    } else {
        MemberImage::Unread
    }
}

pub open spec fn image_scalar(img: MemberImage) -> RawScalarModel {
    match img {
        MemberImage::Scalar(r) => r@,
        _ => RawScalarModel::NotRead,
    }
}

pub open spec fn image_stored_len(img: MemberImage) -> usize {
    match img {
        MemberImage::ScalarArray { stored_len, .. } => stored_len,
        _ => 0,
    }
}

pub open spec fn image_array_item(img: MemberImage, i: int) -> RawScalarModel {
    match img {
        MemberImage::ScalarArray { items, .. } => if 0 <= i < items@.len() {
            items@[i]@
        } else {
            RawScalarModel::NotRead
        },
        _ => RawScalarModel::NotRead,
    }
}

pub open spec fn image_sequence_len(img: MemberImage) -> usize {
    match img {
        MemberImage::MessageSequence { stored_len, .. } => stored_len,
        _ => 0,
    }
}

pub open spec fn image_sequence_items(img: MemberImage) -> Seq<MessageImage> {
    match img {
        MemberImage::MessageSequence { items, .. } => items@,
        _ => Seq::empty(),
    }
}

/// The items of a message sequence that are read: none when the sequence
/// is longer than the limit.
pub open spec fn limited_sequence_items(img: MemberImage, max_array_len: usize) -> Seq<MessageImage> {
    if image_sequence_len(img) > max_array_len {
        Seq::empty()
    } else {
        image_sequence_items(img)
    }
}

// ---------------------------------------------------------------------
// Keys
// ---------------------------------------------------------------------

/// `{prefix}.{key}`, or `key` when there is no prefix.
pub open spec fn spec_member_key(prefix: Option<Seq<char>>, key: Seq<char>) -> Seq<char> {
    match prefix {
        Some(p) => p + seq!['.'] + key,
        None => key,
    }
}

/// `{prefix}.{key}.{i}`, or `{key}.{i}` when there is no prefix.
pub open spec fn spec_item_key(prefix: Option<Seq<char>>, key: Seq<char>, i: nat) -> Seq<char> {
    spec_member_key(prefix, key) + seq!['.'] + spec_decimal(i)
}

pub open spec fn opt_view(prefix: Option<&str>) -> Option<Seq<char>> {
    match prefix {
        Some(p) => Some(p@),
        None => None,
    }
}

fn member_key(prefix: Option<&str>, key: &str) -> (r: String)
    ensures
        r@ == spec_member_key(opt_view(prefix), key@),
{
    match prefix {
        Some(p) => {
            let mut out = to_owned_string(p);
            string_push(&mut out, '.');
            push_str(&mut out, key);
            assert(out@ =~= p@ + seq!['.'] + key@);
            out
        },
        None => to_owned_string(key),
    }
}

fn item_key(prefix: Option<&str>, key: &str, i: usize) -> (r: String)
    ensures
        r@ == spec_item_key(opt_view(prefix), key@, i as nat),
{
    let mut out = member_key(prefix, key);
    string_push(&mut out, '.');
    let digits = u128_to_decimal(i as u128);
    push_str(&mut out, digits.as_str());
    assert(out@ =~= spec_item_key(opt_view(prefix), key@, i as nat));
    out
}

// ---------------------------------------------------------------------
// The interpretation, stated
// ---------------------------------------------------------------------

/// What interpreting a member emits: the attributes pushed, and whether the
/// member was interpreted to its end (a failing value stops it).
pub type Emitted = (Seq<KvModel>, bool);

/// How many items an array holds: its fixed size, or the stored length of a
/// dynamic or bounded sequence (whose `array_size` is only its bound).
pub open spec fn spec_array_len(array_size: usize, is_upper_bound: bool, stored_len: usize) -> usize {
    if array_size != 0 && !is_upper_bound {
        array_size
    } else {
        stored_len
    }
}

/// How many items of a scalar array are interpreted: all of them, or
/// `None` when there are more than the limit, in which case the array is
/// skipped.
pub open spec fn spec_scalar_array_len(
    array_size: usize,
    is_upper_bound: bool,
    stored_len: usize,
    max_array_len: usize,
) -> Option<usize> {
    let len = spec_array_len(array_size, is_upper_bound, stored_len);
    if len > max_array_len {
        None
    } else {
        Some(len)
    }
}

/// The first `n` items of a scalar array, up to the first that fails.
pub open spec fn spec_array_items(
    key: Seq<char>,
    prefix: Option<Seq<char>>,
    type_id: u32,
    img: MemberImage,
    n: nat,
    p: Platform,
) -> Emitted
    decreases n,
{
    if n == 0 {
        (Seq::empty(), true)
    } else {
        let (kvs, ok) = spec_array_items(key, prefix, type_id, img, (n - 1) as nat, p);
        if !ok {
            (kvs, false)
        } else {
            match spec_ros_to_attr_val(type_id, image_array_item(img, n - 1), p) {
                None => (kvs, false),
                Some(v) => (kvs.push((spec_item_key(prefix, key, (n - 1) as nat), v)), true),
            }
        }
    }
}

/// What one member of a message of `size` bytes emits.
pub open spec fn spec_interpret_member(
    m: FlatMemberModel,
    img: MemberImage,
    prefix: Option<Seq<char>>,
    size: usize,
    p: Platform,
    max_array_len: usize,
) -> Emitted
    decreases m, 0int,
{
    match m {
        FlatMemberModel::Scalar { key, type_id, offset } => {
            if offset > size {
                (Seq::empty(), true)
            } else {
                match spec_ros_to_attr_val(type_id, image_scalar(img), p) {
                    None => (Seq::empty(), false),
                    Some(v) => (seq![(spec_member_key(prefix, key), v)], true),
                }
            }
        },
        FlatMemberModel::ScalarArray {
            key,
            type_id,
            offset_in_item_slice,
            array_size,
            is_upper_bound,
            get_function,
            ..
        } => {
            if offset_in_item_slice > size {
                (Seq::empty(), true)
            } else {
                match spec_scalar_array_len(array_size, is_upper_bound, image_stored_len(img), max_array_len) {
                    None => (Seq::empty(), true),
                    Some(len) => if get_function is None {
                        (Seq::empty(), false)
                    } else {
                        spec_array_items(key, prefix, type_id, img, len as nat, p)
                    },
                }
            }
        },
        FlatMemberModel::MessageSequence {
            key,
            offset,
            message_schema,
            size_function,
            get_function,
            ..
        } => {
            if offset > size {
                (Seq::empty(), true)
            } else if size_function is None || get_function is None {
                (Seq::empty(), false)
            } else if image_sequence_len(img) > max_array_len {
                (Seq::empty(), true)
            } else {
                spec_sequence_items(
                    key,
                    prefix,
                    message_schema,
                    image_sequence_items(img),
                    p,
                    max_array_len,
                )
            }
        },
    }
}

/// The items of a message sequence: each item's fields under the item's
/// key, stopping at the first field that fails.
pub open spec fn spec_sequence_items(
    key: Seq<char>,
    prefix: Option<Seq<char>>,
    schema: FlatSchemaModel,
    items: Seq<MessageImage>,
    p: Platform,
    max_array_len: usize,
) -> Emitted
    decreases schema, items.len(),
{
    if items.len() == 0 {
        (Seq::empty(), true)
    } else {
        let (kvs, ok) = spec_sequence_items(key, prefix, schema, items.drop_last(), p, max_array_len);
        if !ok {
            (kvs, false)
        } else {
            let (more, ok2) = spec_fields_strict(
                schema.members,
                items.last().members@,
                Some(spec_item_key(prefix, key, (items.len() - 1) as nat)),
                schema.size,
                p,
                max_array_len,
            );
            (kvs + more, ok2)
        }
    }
}

/// The members of a message, stopping at the first one that fails.
pub open spec fn spec_fields_strict(
    fields: Seq<FlatMemberModel>,
    imgs: Seq<MemberImage>,
    prefix: Option<Seq<char>>,
    size: usize,
    p: Platform,
    max_array_len: usize,
) -> Emitted
    decreases fields, 0int,
{
    if fields.len() == 0 {
        (Seq::empty(), true)
    } else {
        let (kvs, ok) = spec_fields_strict(fields.drop_last(), imgs, prefix, size, p, max_array_len);
        if !ok {
            (kvs, false)
        } else {
            let (more, ok2) = spec_interpret_member(
                fields.last(),
                member_image_at(imgs, fields.len() - 1),
                prefix,
                size,
                p,
                max_array_len,
            );
            (kvs + more, ok2)
        }
    }
}

/// The members of a message, each interpreted whatever became of the others.
pub open spec fn spec_fields_lenient(
    fields: Seq<FlatMemberModel>,
    imgs: Seq<MemberImage>,
    prefix: Option<Seq<char>>,
    size: usize,
    p: Platform,
    max_array_len: usize,
) -> Seq<KvModel>
    decreases fields.len(),
{
    if fields.len() == 0 {
        Seq::empty()
    } else {
        spec_fields_lenient(fields.drop_last(), imgs, prefix, size, p, max_array_len)
            + spec_interpret_member(
            fields.last(),
            member_image_at(imgs, fields.len() - 1),
            prefix,
            size,
            p,
            max_array_len,
        ).0
    }
}

// ---------------------------------------------------------------------
// The interpretation, computed
// ---------------------------------------------------------------------

/// Whether an array of `len` items is within the limit (longer ones are
/// skipped).
pub fn within_array_limit(len: usize, max_array_len: usize) -> (r: bool)
    ensures
        r == (len <= max_array_len),
{
    len <= max_array_len
}

/// How many items of a scalar array are read (see `spec_scalar_array_len`).
pub fn scalar_array_len(array_size: usize, is_upper_bound: bool, stored_len: usize, max_array_len: usize) -> (r:
    Option<usize>)
    ensures
        r == spec_scalar_array_len(array_size, is_upper_bound, stored_len, max_array_len),
{
    let len = if array_size != 0 && !is_upper_bound {
        array_size
    } else {
        stored_len
    };
    if within_array_limit(len, max_array_len) {
        Some(len)
    } else {
        None
    }
}

fn not_read() -> (r: RawScalar)
    ensures
        r@ == RawScalarModel::NotRead,
{
    RawScalar::NotRead
}

proof fn lemma_array_items_stuck(
    key: Seq<char>,
    prefix: Option<Seq<char>>,
    type_id: u32,
    img: MemberImage,
    k: nat,
    m: nat,
    p: Platform,
)
    requires
        k <= m,
        !spec_array_items(key, prefix, type_id, img, k, p).1,
    ensures
        spec_array_items(key, prefix, type_id, img, m, p) == spec_array_items(key, prefix, type_id, img, k, p),
    decreases m - k,
{
    if k < m {
        lemma_array_items_stuck(key, prefix, type_id, img, k, (m - 1) as nat, p);
    }
}

fn interpret_array_items(
    key: &str,
    prefix: Option<&str>,
    type_id: u32,
    img: &MemberImage,
    n: usize,
    p: Platform,
    kvs: &mut Vec<KeyValue>,
) -> (ok: bool)
    ensures
        kvs_model(final(kvs)@) == kvs_model(old(kvs)@) + spec_array_items(
            key@,
            opt_view(prefix),
            type_id,
            *img,
            n as nat,
            p,
        ).0,
        ok == spec_array_items(key@, opt_view(prefix), type_id, *img, n as nat, p).1,
{
    let ghost start = kvs_model(kvs@);
    let placeholder = not_read();
    for i in 0..n
        invariant
            start == kvs_model(old(kvs)@),
            placeholder@ == RawScalarModel::NotRead,
            spec_array_items(key@, opt_view(prefix), type_id, *img, i as nat, p).1,
            kvs_model(kvs@) == start + spec_array_items(
                key@,
                opt_view(prefix),
                type_id,
                *img,
                i as nat,
                p,
            ).0,
    {
        let raw: &RawScalar = match img {
            MemberImage::ScalarArray { items, .. } => {
                if i < items.len() {
                    &items[i]
                } else {
                    &placeholder
                }
            },
            _ => &placeholder,
        };
        assert(raw@ == image_array_item(*img, i as int));
        match ros_to_attr_val(type_id, raw, p) {
            None => {
                proof {
                    lemma_array_items_stuck(key@, opt_view(prefix), type_id, *img, (i + 1) as nat, n as nat, p);
                }
                return false;
            },
            Some(v) => {
                let k = item_key(prefix, key, i);
                let ghost before = kvs@;
                let ghost kv = (k, v);
                kvs.push((k, v));
                proof {
                    lemma_kvs_model_push(before, kv);
                }
            },
        }
    }
    true
}

proof fn lemma_fields_strict_stuck(
    fields: Seq<FlatMemberModel>,
    k: int,
    imgs: Seq<MemberImage>,
    prefix: Option<Seq<char>>,
    size: usize,
    p: Platform,
    max_array_len: usize,
)
    requires
        0 <= k <= fields.len(),
        !spec_fields_strict(fields.take(k), imgs, prefix, size, p, max_array_len).1,
    ensures
        spec_fields_strict(fields, imgs, prefix, size, p, max_array_len) == spec_fields_strict(
            fields.take(k),
            imgs,
            prefix,
            size,
            p,
            max_array_len,
        ),
    decreases fields.len() - k,
{
    if k < fields.len() {
        assert(fields.drop_last().take(k) =~= fields.take(k));
        lemma_fields_strict_stuck(fields.drop_last(), k, imgs, prefix, size, p, max_array_len);
    } else {
        assert(fields.take(k) =~= fields);
    }
}

proof fn lemma_sequence_items_stuck(
    key: Seq<char>,
    prefix: Option<Seq<char>>,
    schema: FlatSchemaModel,
    items: Seq<MessageImage>,
    k: int,
    p: Platform,
    max_array_len: usize,
)
    requires
        0 <= k <= items.len(),
        !spec_sequence_items(key, prefix, schema, items.take(k), p, max_array_len).1,
    ensures
        spec_sequence_items(key, prefix, schema, items, p, max_array_len) == spec_sequence_items(
            key,
            prefix,
            schema,
            items.take(k),
            p,
            max_array_len,
        ),
    decreases items.len() - k,
{
    if k < items.len() {
        assert(items.drop_last().take(k) =~= items.take(k));
        lemma_sequence_items_stuck(key, prefix, schema, items.drop_last(), k, p, max_array_len);
    } else {
        assert(items.take(k) =~= items);
    }
}

impl FlatRosMessageMemberSchema {
    /// Interprets this member of a message of `size` bytes, pushing its
    /// attributes; `false` when a value could not be interpreted, which stops
    /// the member there.
    pub fn interpret_message(
        &self,
        prefix: Option<&str>,
        message: &MemberImage,
        size: usize,
        platform: Platform,
        max_array_len: usize,
        kvs: &mut Vec<KeyValue>,
    ) -> (ok: bool)
        ensures
            kvs_model(final(kvs)@) == kvs_model(old(kvs)@) + spec_interpret_member(
                flat_member_model(*self),
                *message,
                opt_view(prefix),
                size,
                platform,
                max_array_len,
            ).0,
            ok == spec_interpret_member(
                flat_member_model(*self),
                *message,
                opt_view(prefix),
                size,
                platform,
                max_array_len,
            ).1,
        decreases self, 1int,
    {
        let ghost start = kvs_model(kvs@);
        match self {
            FlatRosMessageMemberSchema::Scalar(s) => {
                if s.offset > size {
                    assert(kvs_model(kvs@) =~= start + Seq::<KvModel>::empty());
                    return true;
                }
                let placeholder = not_read();
                let raw: &RawScalar = match message {
                    MemberImage::Scalar(r) => r,
                    _ => &placeholder,
                };
                match ros_to_attr_val(s.type_id, raw, platform) {
                    None => {
                        assert(kvs_model(kvs@) =~= start + Seq::<KvModel>::empty());
                        false
                    },
                    Some(v) => {
                        let k = member_key(prefix, s.key.as_str());
                        let ghost before = kvs@;
                        let ghost kv = (k, v);
                        kvs.push((k, v));
                        proof {
                            lemma_kvs_model_push(before, kv);
                            assert(kvs_model(kvs@) =~= start + seq![kv_model(kv)]);
                        }
                        true
                    },
                }
            },
            FlatRosMessageMemberSchema::ScalarArray(a) => {
                if a.offset_in_item_slice > size {
                    assert(kvs_model(kvs@) =~= start + Seq::<KvModel>::empty());
                    return true;
                }
                let stored_len = match message {
                    MemberImage::ScalarArray { stored_len, .. } => *stored_len,
                    _ => 0,
                };
                match scalar_array_len(a.array_size, a.is_upper_bound, stored_len, max_array_len) {
                    None => {
                        assert(kvs_model(kvs@) =~= start + Seq::<KvModel>::empty());
                        true
                    },
                    Some(len) => {
                        if a.get_function.is_none() {
                            assert(kvs_model(kvs@) =~= start + Seq::<KvModel>::empty());
                            return false;
                        }
                        interpret_array_items(
                            a.key.as_str(),
                            prefix,
                            a.type_id,
                            message,
                            len,
                            platform,
                            kvs,
                        )
                    },
                }
            },
            FlatRosMessageMemberSchema::MessageSequence(q) => {
                if q.offset > size {
                    assert(kvs_model(kvs@) =~= start + Seq::<KvModel>::empty());
                    return true;
                }
                if q.size_function.is_none() || q.get_function.is_none() {
                    assert(kvs_model(kvs@) =~= start + Seq::<KvModel>::empty());
                    return false;
                }
                let count = match message {
                    MemberImage::MessageSequence { stored_len, .. } => *stored_len,
                    _ => 0,
                };
                if !within_array_limit(count, max_array_len) {
                    assert(kvs_model(kvs@) =~= start + Seq::<KvModel>::empty());
                    return true;
                }
                let empty_items: Vec<MessageImage> = Vec::new();
                let items: &Vec<MessageImage> = match message {
                    MemberImage::MessageSequence { items, .. } => items,
                    _ => &empty_items,
                };
                assert(items@ == image_sequence_items(*message));
                let ghost schema_model = flat_schema_model_of(&q.message_schema);
                let n = items.len();
                #[verifier::loop_isolation(false)]
                for i in 0..n
                    invariant
                        n == items@.len(),
                        start == kvs_model(old(kvs)@),
                        schema_model == crate::schema::flat_schema_model(q.message_schema),
                        spec_sequence_items(
                            q.key@,
                            opt_view(prefix),
                            schema_model,
                            items@.take(i as int),
                            platform,
                            max_array_len,
                        ).1,
                        kvs_model(kvs@) == start + spec_sequence_items(
                            q.key@,
                            opt_view(prefix),
                            schema_model,
                            items@.take(i as int),
                            platform,
                            max_array_len,
                        ).0,
                {
                    let k = item_key(prefix, q.key.as_str(), i);
                    let ghost mid = kvs_model(kvs@);
                    proof {
                        assert(items@.take(i + 1).drop_last() =~= items@.take(i as int));
                        assert(items@.take(i + 1).last() == items@[i as int]);
                        assert(schema_model.members == flat_members_model(q.message_schema.members@));
                        assert(schema_model.size == q.message_schema.size);
                    }
                    let ok = fields_strict(
                        &q.message_schema.members,
                        &items[i].members,
                        Some(k.as_str()),
                        q.message_schema.size,
                        platform,
                        max_array_len,
                        kvs,
                    );
                    if !ok {
                        proof {
                            lemma_sequence_items_stuck(
                                q.key@,
                                opt_view(prefix),
                                schema_model,
                                items@,
                                i + 1,
                                platform,
                                max_array_len,
                            );
                            assert(kvs_model(kvs@) =~= start + spec_sequence_items(
                                q.key@,
                                opt_view(prefix),
                                schema_model,
                                items@.take(i + 1),
                                platform,
                                max_array_len,
                            ).0);
                        }
                        return false;
                    }
                    proof {
                        assert(kvs_model(kvs@) =~= start + spec_sequence_items(
                            q.key@,
                            opt_view(prefix),
                            schema_model,
                            items@.take(i + 1),
                            platform,
                            max_array_len,
                        ).0);
                    }
                }
                proof {
                    assert(items@.take(n as int) =~= items@);
                }
                true
            },
        }
    }
}

spec fn flat_schema_model_of(s: &FlatRosMessageSchema) -> FlatSchemaModel {
    crate::schema::flat_schema_model(*s)
}

/// Interprets the members of a message in order, stopping at the first
/// that fails; `false` when one did.
fn fields_strict(
    fields: &Vec<FlatRosMessageMemberSchema>,
    imgs: &Vec<MemberImage>,
    prefix: Option<&str>,
    size: usize,
    platform: Platform,
    max_array_len: usize,
    kvs: &mut Vec<KeyValue>,
) -> (ok: bool)
    ensures
        kvs_model(final(kvs)@) == kvs_model(old(kvs)@) + spec_fields_strict(
            flat_members_model(fields@),
            imgs@,
            opt_view(prefix),
            size,
            platform,
            max_array_len,
        ).0,
        ok == spec_fields_strict(
            flat_members_model(fields@),
            imgs@,
            opt_view(prefix),
            size,
            platform,
            max_array_len,
        ).1,
    decreases fields, 0int,
{
    let ghost start = kvs_model(kvs@);
    let ghost fm = flat_members_model(fields@);
    proof {
        crate::schema::lemma_flat_members_model_index(fields@);
    }
    let unread = MemberImage::Unread;
    let n = fields.len();
    #[verifier::loop_isolation(false)]
    for j in 0..n
        invariant
            n == fields@.len(),
            fm.len() == n,
            start == kvs_model(old(kvs)@),
            spec_fields_strict(fm.take(j as int), imgs@, opt_view(prefix), size, platform, max_array_len).1,
            kvs_model(kvs@) == start + spec_fields_strict(
                fm.take(j as int),
                imgs@,
                opt_view(prefix),
                size,
                platform,
                max_array_len,
            ).0,
    {
        let img: &MemberImage = if j < imgs.len() {
            &imgs[j]
        } else {
            &unread
        };
        proof {
            assert(fm.take(j + 1).drop_last() =~= fm.take(j as int));
            assert(fm.take(j + 1).last() == flat_member_model(fields@[j as int]));
            assert(*img == member_image_at(imgs@, j as int));
            assert(decreases_to!(fields => fields@[j as int]));
        }
        let ok = fields[j].interpret_message(prefix, img, size, platform, max_array_len, kvs);
        proof {
            assert(kvs_model(kvs@) =~= start + spec_fields_strict(
                fm.take(j + 1),
                imgs@,
                opt_view(prefix),
                size,
                platform,
                max_array_len,
            ).0);
        }
        if !ok {
            proof {
                lemma_fields_strict_stuck(fm, j + 1, imgs@, opt_view(prefix), size, platform, max_array_len);
            }
            return false;
        }
    }
    proof {
        assert(fm.take(n as int) =~= fm);
    }
    true
}

/// Interprets the members of a message in order, each whatever became of
/// the others.
fn fields_lenient(
    fields: &Vec<FlatRosMessageMemberSchema>,
    imgs: &Vec<MemberImage>,
    prefix: Option<&str>,
    size: usize,
    platform: Platform,
    max_array_len: usize,
    kvs: &mut Vec<KeyValue>,
)
    ensures
        kvs_model(final(kvs)@) == kvs_model(old(kvs)@) + spec_fields_lenient(
            flat_members_model(fields@),
            imgs@,
            opt_view(prefix),
            size,
            platform,
            max_array_len,
        ),
{
    let ghost start = kvs_model(kvs@);
    let ghost fm = flat_members_model(fields@);
    proof {
        crate::schema::lemma_flat_members_model_index(fields@);
    }
    let unread = MemberImage::Unread;
    let n = fields.len();
    for j in 0..n
        invariant
            n == fields@.len(),
            fm == flat_members_model(fields@),
            fm.len() == n,
            unread == MemberImage::Unread,
            forall|k: int| 0 <= k < n ==> #[trigger] fm[k] == flat_member_model(fields@[k]),
            start == kvs_model(old(kvs)@),
            kvs_model(kvs@) == start + spec_fields_lenient(
                fm.take(j as int),
                imgs@,
                opt_view(prefix),
                size,
                platform,
                max_array_len,
            ),
    {
        let img: &MemberImage = if j < imgs.len() {
            &imgs[j]
        } else {
            &unread
        };
        proof {
            assert(fm.take(j + 1).drop_last() =~= fm.take(j as int));
            assert(fm.take(j + 1).last() == fm[j as int]);
            assert(*img == member_image_at(imgs@, j as int));
        }
        let _ = fields[j].interpret_message(prefix, img, size, platform, max_array_len, kvs);
        proof {
            assert(kvs_model(kvs@) =~= start + spec_fields_lenient(
                fm.take(j + 1),
                imgs@,
                opt_view(prefix),
                size,
                platform,
                max_array_len,
            ));
        }
    }
    proof {
        assert(fm.take(n as int) =~= fm);
    }
}

// ---------------------------------------------------------------------
// Whole messages
// ---------------------------------------------------------------------

pub open spec fn schema_namespace_key() -> Seq<char> {
    "event.ros.schema.namespace"@
}

pub open spec fn schema_name_key() -> Seq<char> {
    "event.ros.schema.name"@
}

/// The two attributes that name a message's schema.
pub open spec fn spec_schema_header(s: FlatSchemaModel) -> Seq<KvModel> {
    seq![
        (schema_namespace_key(), AttrModel::String(s.namespace)),
        (schema_name_key(), AttrModel::String(s.name)),
    ]
}

/// Index of the first pair whose key is `a` or `b`.
pub open spec fn spec_first_key(kvs: Seq<KvModel>, a: Seq<char>, b: Seq<char>) -> Option<int>
    decreases kvs.len(),
{
    if kvs.len() == 0 {
        None
    } else if kvs[0].0 == a || kvs[0].0 == b {
        Some(0)
    } else {
        match spec_first_key(kvs.drop_first(), a, b) {
            Some(i) => Some(i + 1),
            None => None,
        }
    }
}

/// The `msg` attribute of a `rcl_interfaces/Log` message (the `/rosout`
/// topic's type): its text becomes the event's name.
pub open spec fn spec_log_message(s: FlatSchemaModel, kvs: Seq<KvModel>) -> Option<AttrModel> {
    if (s.namespace == "rcl_interfaces__msg"@ || s.namespace == "rcl_interfaces::msg"@) && s.name
        == "Log"@ {
        match spec_first_key(kvs, "msg"@, "msg"@) {
            Some(i) => Some(kvs[i].1),
            None => None,
        }
    } else {
        None
    }
}

/// The attributes with `msg` made the event name: it replaces the value of
/// the first `name` or `event.name` attribute, or becomes `event.name`.
pub open spec fn spec_apply_event_name(kvs: Seq<KvModel>, msg: AttrModel) -> Seq<KvModel> {
    match spec_first_key(kvs, "name"@, "event.name"@) {
        Some(i) => kvs.update(i, (kvs[i].0, msg)),
        None => kvs.push(("event.name"@, msg)),
    }
}

/// The attributes of one message: the schema header, every member at the
/// top level (failures skip only the failing member), and for a log
/// message its text as the event name.
pub open spec fn spec_single_message(
    s: FlatSchemaModel,
    img: MessageImage,
    p: Platform,
    max_array_len: usize,
) -> Seq<KvModel> {
    let base = spec_schema_header(s) + spec_fields_lenient(
        s.members,
        img.members@,
        None,
        s.size,
        p,
        max_array_len,
    );
    match spec_log_message(s, base) {
        Some(msg) => spec_apply_event_name(base, msg),
        None => base,
    }
}

pub open spec fn shift_index(o: Option<int>, d: int) -> Option<int> {
    match o {
        Some(i) => Some(i + d),
        None => None,
    }
}

fn find_first_key(kvs: &Vec<KeyValue>, a: &str, b: &str) -> (r: Option<usize>)
    ensures
        r matches Some(i) ==> spec_first_key(kvs_model(kvs@), a@, b@) == Some(i as int) && i < kvs@.len(),
        r is None ==> spec_first_key(kvs_model(kvs@), a@, b@) is None,
{
    let ghost m = kvs_model(kvs@);
    proof {
        lemma_first_key_skip0(m, a@, b@);
    }
    let n = kvs.len();
    for i in 0..n
        invariant
            n == kvs@.len(),
            m == kvs_model(kvs@),
            spec_first_key(m, a@, b@) == shift_index(spec_first_key(m.skip(i as int), a@, b@), i as int),
    {
        proof {
            assert(m.skip(i as int).drop_first() =~= m.skip(i + 1));
            assert(m.skip(i as int)[0] == kv_model(kvs@[i as int]));
        }
        if str_eq(kvs[i].0.as_str(), a) || str_eq(kvs[i].0.as_str(), b) {
            return Some(i);
        }
    }
    proof {
        assert(m.skip(n as int) =~= Seq::<KvModel>::empty());
    }
    None
}

proof fn lemma_first_key_skip0(m: Seq<KvModel>, a: Seq<char>, b: Seq<char>)
    ensures
        spec_first_key(m, a, b) == shift_index(spec_first_key(m.skip(0), a, b), 0),
{
    assert(m.skip(0) =~= m);
    match spec_first_key(m, a, b) {
        Some(i) => {},
        None => {},
    }
}

fn schema_header(schema: &FlatRosMessageSchema) -> (r: Vec<KeyValue>)
    ensures
        kvs_model(r@) == spec_schema_header(schema@),
{
    let mut kvs: Vec<KeyValue> = Vec::new();
    kvs.push((to_owned_string("event.ros.schema.namespace"), AttrValue::String(schema.namespace.clone())));
    kvs.push((to_owned_string("event.ros.schema.name"), AttrValue::String(schema.name.clone())));
    assert(kvs_model(kvs@) =~= spec_schema_header(schema@));
    kvs
}

/// The `msg` attribute of a log message, if this is one.
pub fn extract_log_message(schema: &FlatRosMessageSchema, kvs: &Vec<KeyValue>) -> (r: Option<
    AttrValue,
>)
    ensures
        r matches Some(v) ==> spec_log_message(schema@, kvs_model(kvs@)) == Some(v@),
        r is None ==> spec_log_message(schema@, kvs_model(kvs@)) is None,
{
    if (str_eq(schema.namespace.as_str(), "rcl_interfaces__msg") || str_eq(
        schema.namespace.as_str(),
        "rcl_interfaces::msg",
    )) && str_eq(schema.name.as_str(), "Log") {
        proof {
            lemma_first_key_skip0(kvs_model(kvs@), "msg"@, "msg"@);
        }
        match find_first_key(kvs, "msg", "msg") {
            Some(i) => {
                proof {
                    lemma_kvs_model_index(kvs@, i as int);
                }
                Some(kvs[i].1.duplicate())
            },
            None => None,
        }
    } else {
        None
    }
}

proof fn lemma_kvs_model_index(kvs: Seq<KeyValue>, i: int)
    requires
        0 <= i < kvs.len(),
    ensures
        kvs_model(kvs)[i] == kv_model(kvs[i]),
        kvs_model(kvs).len() == kvs.len(),
{
}

fn apply_event_name(kvs: &mut Vec<KeyValue>, msg: AttrValue)
    ensures
        kvs_model(final(kvs)@) == spec_apply_event_name(kvs_model(old(kvs)@), msg@),
{
    proof {
        lemma_first_key_skip0(kvs_model(kvs@), "name"@, "event.name"@);
    }
    match find_first_key(kvs, "name", "event.name") {
        Some(i) => {
            let k = kvs[i].0.clone();
            let ghost before = kvs@;
            kvs.set(i, (k, msg));
            proof {
                assert(kvs_model(kvs@) =~= kvs_model(before).update(
                    i as int,
                    (kvs_model(before)[i as int].0, msg@),
                ));
            }
        },
        None => {
            let ghost before = kvs@;
            let k = to_owned_string("event.name");
            let ghost kv = (k, msg);
            kvs.push((k, msg));
            proof {
                lemma_kvs_model_push(before, kv);
            }
        },
    }
}

impl FlatRosMessageSchema {
    /// Pushes the attributes of every member, each whatever became of the others.
    pub fn interpret_message_internal(
        &self,
        prefix: Option<&str>,
        message: &MessageImage,
        platform: Platform,
        max_array_len: usize,
        kvs: &mut Vec<KeyValue>,
    )
        ensures
            kvs_model(final(kvs)@) == kvs_model(old(kvs)@) + spec_fields_lenient(
                self@.members,
                message.members@,
                opt_view(prefix),
                self.size,
                platform,
                max_array_len,
            ),
    {
        fields_lenient(&self.members, &message.members, prefix, self.size, platform, max_array_len, kvs);
    }

    /// The attributes of one message of this type.
    pub fn interpret_single_message(
        &self,
        message: &MessageImage,
        platform: Platform,
        max_array_len: usize,
    ) -> (r: Vec<KeyValue>)
        ensures
            kvs_model(r@) == spec_single_message(self@, *message, platform, max_array_len),
    {
        let mut kvs = schema_header(self);
        self.interpret_message_internal(None, message, platform, max_array_len, &mut kvs);
        if let Some(msg) = extract_log_message(self, &kvs) {
            apply_event_name(&mut kvs, msg);
        }
        kvs
    }
}

// ---------------------------------------------------------------------
// Diagnostic arrays
// ---------------------------------------------------------------------

pub open spec fn spec_is_diagnostic_namespace(ns: Seq<char>) -> bool {
    ns == "diagnostic_msgs::msg"@ || ns == "diagnostic_msgs__msg"@
}

/// A `diagnostic_msgs/DiagnosticArray`, whose status items each become an event.
pub open spec fn spec_is_diagnostic_array(s: FlatSchemaModel) -> bool {
    spec_is_diagnostic_namespace(s.namespace) && s.name == "DiagnosticArray"@
}

/// The `status` sequence of `DiagnosticStatus` messages.
pub open spec fn spec_is_status_field(m: FlatMemberModel) -> bool {
    &&& m matches FlatMemberModel::MessageSequence { key, message_schema, .. }
    &&& key == "status"@
    &&& spec_is_diagnostic_namespace(message_schema.namespace)
    &&& message_schema.name == "DiagnosticStatus"@
}

/// The `values` sequence of `KeyValue` messages.
pub open spec fn spec_is_values_field(m: FlatMemberModel) -> bool {
    &&& m matches FlatMemberModel::MessageSequence { key, message_schema, .. }
    &&& key == "values"@
    &&& spec_is_diagnostic_namespace(message_schema.namespace)
    &&& message_schema.name == "KeyValue"@
}

fn is_diagnostic_namespace(ns: &str) -> (r: bool)
    ensures
        r == spec_is_diagnostic_namespace(ns@),
{
    str_eq(ns, "diagnostic_msgs::msg") || str_eq(ns, "diagnostic_msgs__msg")
}

/// The member as the status field of a diagnostic array, if it is that.
pub fn as_status_field(member: &FlatRosMessageMemberSchema) -> (r: Option<&MessageSequenceMemberSchema>)
    ensures
        r is Some <==> spec_is_status_field(flat_member_model(*member)),
        r matches Some(q) ==> *member == FlatRosMessageMemberSchema::MessageSequence(*q),
{
    match member {
        FlatRosMessageMemberSchema::MessageSequence(q) => {
            if str_eq(q.key.as_str(), "status") && is_diagnostic_namespace(
                q.message_schema.namespace.as_str(),
            ) && str_eq(q.message_schema.name.as_str(), "DiagnosticStatus") {
                Some(q)
            } else {
                None
            }
        },
        _ => None,
    }
}

/// The member as the values field of a diagnostic status, if it is that.
pub fn as_values_field(member: &FlatRosMessageMemberSchema) -> (r: Option<&MessageSequenceMemberSchema>)
    ensures
        r is Some <==> spec_is_values_field(flat_member_model(*member)),
        r matches Some(q) ==> *member == FlatRosMessageMemberSchema::MessageSequence(*q),
{
    match member {
        FlatRosMessageMemberSchema::MessageSequence(q) => {
            if str_eq(q.key.as_str(), "values") && is_diagnostic_namespace(
                q.message_schema.namespace.as_str(),
            ) && str_eq(q.message_schema.name.as_str(), "KeyValue") {
                Some(q)
            } else {
                None
            }
        },
        _ => None,
    }
}

/// The attributes made of one `KeyValue` item: its value under the
/// normalised key, and the key itself under `{normalised}.key`. Nothing
/// when the item lacks a key or a value (or its key is a float, which has
/// no text here).
pub open spec fn spec_kv_pair(local: Seq<KvModel>) -> Seq<KvModel> {
    match (spec_first_key(local, "key"@, "key"@), spec_first_key(local, "value"@, "value"@)) {
        (Some(i), Some(j)) => match spec_display_model(local[i].1) {
            Some(t) => seq![
                (spec_normalized_attr_key(t), local[j].1),
                (spec_normalized_attr_key(t) + ".key"@, AttrModel::String(t)),
            ],
            None => Seq::empty(),
        },
        _ => Seq::empty(),
    }
}

/// The attributes of the items of a `values` sequence.
pub open spec fn spec_values_items(
    vschema: FlatSchemaModel,
    items: Seq<MessageImage>,
    p: Platform,
    max_array_len: usize,
) -> Seq<KvModel>
    decreases items.len(),
{
    if items.len() == 0 {
        Seq::empty()
    } else {
        spec_values_items(vschema, items.drop_last(), p, max_array_len) + spec_kv_pair(
            spec_fields_lenient(
                vschema.members,
                items.last().members@,
                None,
                vschema.size,
                p,
                max_array_len,
            ),
        )
    }
}

pub open spec fn spec_values_member(
    f: FlatMemberModel,
    img: MemberImage,
    size: usize,
    p: Platform,
    max_array_len: usize,
) -> Seq<KvModel> {
    match f {
        FlatMemberModel::MessageSequence { offset, message_schema, size_function, get_function, .. } => {
            if offset > size || size_function is None || get_function is None {
                Seq::empty()
            } else {
                spec_values_items(
                    message_schema,
                    limited_sequence_items(img, max_array_len),
                    p,
                    max_array_len,
                )
            }
        },
        _ => Seq::empty(),
    }
}

/// The attributes of one status item's fields, stopping at the first field
/// (other than `values`) that fails.
pub open spec fn spec_status_fields(
    fields: Seq<FlatMemberModel>,
    imgs: Seq<MemberImage>,
    size: usize,
    p: Platform,
    max_array_len: usize,
) -> Emitted
    decreases fields.len(),
{
    if fields.len() == 0 {
        (Seq::empty(), true)
    } else {
        let (kvs, ok) = spec_status_fields(fields.drop_last(), imgs, size, p, max_array_len);
        if !ok {
            (kvs, false)
        } else {
            let f = fields.last();
            let img = member_image_at(imgs, fields.len() - 1);
            if spec_is_values_field(f) {
                (kvs + spec_values_member(f, img, size, p, max_array_len), true)
            } else {
                let (more, ok2) = spec_interpret_member(f, img, None, size, p, max_array_len);
                (kvs + more, ok2)
            }
        }
    }
}

/// One event per status item, each the common attributes followed by the
/// item's; the items stop at the first that fails.
pub open spec fn spec_status_items(
    common: Seq<KvModel>,
    sschema: FlatSchemaModel,
    items: Seq<MessageImage>,
    p: Platform,
    max_array_len: usize,
) -> (Seq<Seq<KvModel>>, bool)
    decreases items.len(),
{
    if items.len() == 0 {
        (Seq::empty(), true)
    } else {
        let (evs, ok) = spec_status_items(common, sschema, items.drop_last(), p, max_array_len);
        if !ok {
            (evs, false)
        } else {
            let (more, ok2) = spec_status_fields(
                sschema.members,
                items.last().members@,
                sschema.size,
                p,
                max_array_len,
            );
            if ok2 {
                (evs.push(common + more), true)
            } else {
                (evs, false)
            }
        }
    }
}

/// The top-level members other than the status field.
pub open spec fn spec_fields_nonstatus(
    fields: Seq<FlatMemberModel>,
    imgs: Seq<MemberImage>,
    size: usize,
    p: Platform,
    max_array_len: usize,
) -> Seq<KvModel>
    decreases fields.len(),
{
    if fields.len() == 0 {
        Seq::empty()
    } else {
        spec_fields_nonstatus(fields.drop_last(), imgs, size, p, max_array_len) + if spec_is_status_field(
            fields.last(),
        ) {
            Seq::empty()
        } else {
            spec_interpret_member(
                fields.last(),
                member_image_at(imgs, fields.len() - 1),
                None,
                size,
                p,
                max_array_len,
            ).0
        }
    }
}

/// Index of the first status field.
pub open spec fn spec_first_status(fields: Seq<FlatMemberModel>) -> Option<int>
    decreases fields.len(),
{
    if fields.len() == 0 {
        None
    } else if spec_is_status_field(fields[0]) {
        Some(0)
    } else {
        shift_index(spec_first_status(fields.drop_first()), 1)
    }
}

/// The events of a diagnostic array: one per status item, each with the
/// array's other attributes; a single event of those attributes when the
/// array has no status field.
pub open spec fn spec_diagnostic_events(
    s: FlatSchemaModel,
    img: MessageImage,
    p: Platform,
    max_array_len: usize,
) -> Seq<Seq<KvModel>> {
    let common = spec_schema_header(s) + spec_fields_nonstatus(
        s.members,
        img.members@,
        s.size,
        p,
        max_array_len,
    );
    match spec_first_status(s.members) {
        None => seq![common],
        Some(j) => match s.members[j] {
            FlatMemberModel::MessageSequence {
                offset,
                message_schema,
                size_function,
                get_function,
                ..
            } => {
                if offset > s.size || size_function is None || get_function is None {
                    Seq::empty()
                } else {
                    spec_status_items(
                        common,
                        message_schema,
                        limited_sequence_items(member_image_at(img.members@, j), max_array_len),
                        p,
                        max_array_len,
                    ).0
                }
            },
            _ => Seq::empty(),
        },
    }
}

/// The events of one message: those of a diagnostic array, or else one event.
pub open spec fn spec_compound_message(
    s: FlatSchemaModel,
    img: MessageImage,
    p: Platform,
    max_array_len: usize,
) -> Seq<Seq<KvModel>> {
    if spec_is_diagnostic_array(s) {
        spec_diagnostic_events(s, img, p, max_array_len)
    } else {
        seq![spec_single_message(s, img, p, max_array_len)]
    }
}

pub open spec fn events_model(v: Seq<Vec<KeyValue>>) -> Seq<Seq<KvModel>> {
    v.map_values(|e: Vec<KeyValue>| kvs_model(e@))
}

fn kv_pair_attrs(local: &Vec<KeyValue>, kvs: &mut Vec<KeyValue>)
    ensures
        kvs_model(final(kvs)@) == kvs_model(old(kvs)@) + spec_kv_pair(kvs_model(local@)),
{
    let ghost start = kvs_model(kvs@);
    let ghost lm = kvs_model(local@);
    proof {
        lemma_first_key_skip0(lm, "key"@, "key"@);
        lemma_first_key_skip0(lm, "value"@, "value"@);
    }
    let ki = find_first_key(local, "key", "key");
    let vi = find_first_key(local, "value", "value");
    match (ki, vi) {
        (Some(i), Some(j)) => {
            proof {
                lemma_kvs_model_index(local@, i as int);
                lemma_kvs_model_index(local@, j as int);
            }
            match local[i].1.display_text() {
                Some(t) => {
                    let ks = normalize_string_for_attr_key(t.clone());
                    let v = local[j].1.duplicate();
                    let ghost b1 = kvs@;
                    let k1 = ks.clone();
                    let ghost kv1 = (k1, v);
                    kvs.push((k1, v));
                    let k2 = concatenate(ks.as_str(), ".key");
                    let ghost b2 = kvs@;
                    let ghost kv2 = (k2, AttrValue::String(t));
                    kvs.push((k2, AttrValue::String(t)));
                    proof {
                        lemma_kvs_model_push(b1, kv1);
                        lemma_kvs_model_push(b2, kv2);
                        assert(kvs_model(kvs@) =~= start + spec_kv_pair(lm));
                    }
                },
                None => {
                    assert(kvs_model(kvs@) =~= start + spec_kv_pair(lm));
                },
            }
        },
        _ => {
            assert(kvs_model(kvs@) =~= start + spec_kv_pair(lm));
        },
    }
}

fn values_member(
    q: &MessageSequenceMemberSchema,
    img: &MemberImage,
    size: usize,
    platform: Platform,
    max_array_len: usize,
    kvs: &mut Vec<KeyValue>,
)
    ensures
        kvs_model(final(kvs)@) == kvs_model(old(kvs)@) + spec_values_member(
            flat_member_model(FlatRosMessageMemberSchema::MessageSequence(*q)),
            *img,
            size,
            platform,
            max_array_len,
        ),
{
    let ghost start = kvs_model(kvs@);
    if q.offset > size || q.size_function.is_none() || q.get_function.is_none() {
        assert(kvs_model(kvs@) =~= start + Seq::<KvModel>::empty());
        return;
    }
    let empty_items: Vec<MessageImage> = Vec::new();
    let items: &Vec<MessageImage> = match img {
        MemberImage::MessageSequence { stored_len, items } => if within_array_limit(
            *stored_len,
            max_array_len,
        ) {
            items
        } else {
            &empty_items
        },
        _ => &empty_items,
    };
    assert(items@ == limited_sequence_items(*img, max_array_len));
    let ghost vs = flat_schema_model(q.message_schema);
    let n = items.len();
    for i in 0..n
        invariant
            n == items@.len(),
            vs == flat_schema_model(q.message_schema),
            start == kvs_model(old(kvs)@),
            kvs_model(kvs@) == start + spec_values_items(vs, items@.take(i as int), platform, max_array_len),
    {
        let mut local: Vec<KeyValue> = Vec::new();
        q.message_schema.interpret_message_internal(None, &items[i], platform, max_array_len, &mut local);
        let ghost mid = kvs_model(kvs@);
        kv_pair_attrs(&local, kvs);
        proof {
            assert(items@.take(i + 1).drop_last() =~= items@.take(i as int));
            assert(kvs_model(local@) =~= kvs_model(Seq::<KeyValue>::empty()) + spec_fields_lenient(
                vs.members,
                items@[i as int].members@,
                None,
                vs.size,
                platform,
                max_array_len,
            ));
            assert(kvs_model(kvs@) =~= start + spec_values_items(
                vs,
                items@.take(i + 1),
                platform,
                max_array_len,
            ));
        }
    }
    proof {
        assert(items@.take(n as int) =~= items@);
    }
}

proof fn lemma_status_fields_stuck(
    fields: Seq<FlatMemberModel>,
    k: int,
    imgs: Seq<MemberImage>,
    size: usize,
    p: Platform,
    max_array_len: usize,
)
    requires
        0 <= k <= fields.len(),
        !spec_status_fields(fields.take(k), imgs, size, p, max_array_len).1,
    ensures
        spec_status_fields(fields, imgs, size, p, max_array_len) == spec_status_fields(
            fields.take(k),
            imgs,
            size,
            p,
            max_array_len,
        ),
    decreases fields.len() - k,
{
    if k < fields.len() {
        assert(fields.drop_last().take(k) =~= fields.take(k));
        lemma_status_fields_stuck(fields.drop_last(), k, imgs, size, p, max_array_len);
    } else {
        assert(fields.take(k) =~= fields);
    }
}

fn status_fields(
    fields: &Vec<FlatRosMessageMemberSchema>,
    imgs: &Vec<MemberImage>,
    size: usize,
    platform: Platform,
    max_array_len: usize,
    kvs: &mut Vec<KeyValue>,
) -> (ok: bool)
    ensures
        kvs_model(final(kvs)@) == kvs_model(old(kvs)@) + spec_status_fields(
            flat_members_model(fields@),
            imgs@,
            size,
            platform,
            max_array_len,
        ).0,
        ok == spec_status_fields(flat_members_model(fields@), imgs@, size, platform, max_array_len).1,
{
    let ghost start = kvs_model(kvs@);
    let ghost fm = flat_members_model(fields@);
    proof {
        crate::schema::lemma_flat_members_model_index(fields@);
    }
    let unread = MemberImage::Unread;
    let n = fields.len();
    #[verifier::loop_isolation(false)]
    for j in 0..n
        invariant
            n == fields@.len(),
            start == kvs_model(old(kvs)@),
            spec_status_fields(fm.take(j as int), imgs@, size, platform, max_array_len).1,
            kvs_model(kvs@) == start + spec_status_fields(
                fm.take(j as int),
                imgs@,
                size,
                platform,
                max_array_len,
            ).0,
    {
        let img: &MemberImage = if j < imgs.len() {
            &imgs[j]
        } else {
            &unread
        };
        proof {
            assert(fm.take(j + 1).drop_last() =~= fm.take(j as int));
            assert(fm.take(j + 1).last() == flat_member_model(fields@[j as int]));
            assert(*img == member_image_at(imgs@, j as int));
        }
        match as_values_field(&fields[j]) {
            Some(q) => {
                values_member(q, img, size, platform, max_array_len, kvs);
                proof {
                    assert(kvs_model(kvs@) =~= start + spec_status_fields(
                        fm.take(j + 1),
                        imgs@,
                        size,
                        platform,
                        max_array_len,
                    ).0);
                }
            },
            None => {
                let ok = fields[j].interpret_message(None, img, size, platform, max_array_len, kvs);
                proof {
                    assert(kvs_model(kvs@) =~= start + spec_status_fields(
                        fm.take(j + 1),
                        imgs@,
                        size,
                        platform,
                        max_array_len,
                    ).0);
                }
                if !ok {
                    proof {
                        lemma_status_fields_stuck(fm, j + 1, imgs@, size, platform, max_array_len);
                    }
                    return false;
                }
            },
        }
    }
    proof {
        assert(fm.take(n as int) =~= fm);
    }
    true
}

fn fields_nonstatus(
    fields: &Vec<FlatRosMessageMemberSchema>,
    imgs: &Vec<MemberImage>,
    size: usize,
    platform: Platform,
    max_array_len: usize,
    kvs: &mut Vec<KeyValue>,
)
    ensures
        kvs_model(final(kvs)@) == kvs_model(old(kvs)@) + spec_fields_nonstatus(
            flat_members_model(fields@),
            imgs@,
            size,
            platform,
            max_array_len,
        ),
{
    let ghost start = kvs_model(kvs@);
    let ghost fm = flat_members_model(fields@);
    proof {
        crate::schema::lemma_flat_members_model_index(fields@);
    }
    let unread = MemberImage::Unread;
    let n = fields.len();
    #[verifier::loop_isolation(false)]
    for j in 0..n
        invariant
            n == fields@.len(),
            start == kvs_model(old(kvs)@),
            kvs_model(kvs@) == start + spec_fields_nonstatus(
                fm.take(j as int),
                imgs@,
                size,
                platform,
                max_array_len,
            ),
    {
        let img: &MemberImage = if j < imgs.len() {
            &imgs[j]
        } else {
            &unread
        };
        proof {
            assert(fm.take(j + 1).drop_last() =~= fm.take(j as int));
            assert(fm.take(j + 1).last() == flat_member_model(fields@[j as int]));
            assert(*img == member_image_at(imgs@, j as int));
        }
        if as_status_field(&fields[j]).is_none() {
            let _ = fields[j].interpret_message(None, img, size, platform, max_array_len, kvs);
        }
        proof {
            assert(kvs_model(kvs@) =~= start + spec_fields_nonstatus(
                fm.take(j + 1),
                imgs@,
                size,
                platform,
                max_array_len,
            ));
        }
    }
    proof {
        assert(fm.take(n as int) =~= fm);
    }
}

fn first_status(fields: &Vec<FlatRosMessageMemberSchema>) -> (r: Option<usize>)
    ensures
        r matches Some(j) ==> j < fields@.len() && spec_first_status(flat_members_model(fields@)) == Some(
            j as int,
        ),
        r is None ==> spec_first_status(flat_members_model(fields@)) is None,
{
    let ghost fm = flat_members_model(fields@);
    proof {
        crate::schema::lemma_flat_members_model_index(fields@);
        assert(fm.skip(0) =~= fm);
        match spec_first_status(fm) {
            Some(_) => {},
            None => {},
        }
    }
    let n = fields.len();
    for j in 0..n
        invariant
            n == fields@.len(),
            fm == flat_members_model(fields@),
            fm.len() == n,
            forall|k: int| 0 <= k < n ==> #[trigger] fm[k] == flat_member_model(fields@[k]),
            spec_first_status(fm) == shift_index(spec_first_status(fm.skip(j as int)), j as int),
    {
        proof {
            assert(fm.skip(j as int).drop_first() =~= fm.skip(j + 1));
            assert(fm.skip(j as int)[0] == fm[j as int]);
        }
        if as_status_field(&fields[j]).is_some() {
            return Some(j);
        }
    }
    proof {
        assert(fm.skip(n as int) =~= Seq::<FlatMemberModel>::empty());
    }
    None
}

proof fn lemma_first_status_is_status(fields: Seq<FlatMemberModel>)
    ensures
        spec_first_status(fields) matches Some(j) ==> 0 <= j < fields.len() && spec_is_status_field(
            fields[j],
        ),
    decreases fields.len(),
{
    if fields.len() > 0 && !spec_is_status_field(fields[0]) {
        lemma_first_status_is_status(fields.drop_first());
    }
}

proof fn lemma_status_items_stuck(
    common: Seq<KvModel>,
    sschema: FlatSchemaModel,
    items: Seq<MessageImage>,
    k: int,
    p: Platform,
    max_array_len: usize,
)
    requires
        0 <= k <= items.len(),
        !spec_status_items(common, sschema, items.take(k), p, max_array_len).1,
    ensures
        spec_status_items(common, sschema, items, p, max_array_len) == spec_status_items(
            common,
            sschema,
            items.take(k),
            p,
            max_array_len,
        ),
    decreases items.len() - k,
{
    if k < items.len() {
        assert(items.drop_last().take(k) =~= items.take(k));
        lemma_status_items_stuck(common, sschema, items.drop_last(), k, p, max_array_len);
    } else {
        assert(items.take(k) =~= items);
    }
}

impl FlatRosMessageSchema {
    /// Special handling for the 'DiagnosticArray' type; it has a bunch of
    /// 'status' items in an array, and each of those is emitted as a
    /// top-level event.
    pub fn interepret_as_diagnostic_array(
        &self,
        message: &MessageImage,
        platform: Platform,
        max_array_len: usize,
    ) -> (r: Vec<Vec<KeyValue>>)
        ensures
            events_model(r@) == spec_diagnostic_events(self@, *message, platform, max_array_len),
    {
        let ghost sm = self@;
        let mut common_kvs = schema_header(self);
        // Repeat the members outside of the status field for every event
        fields_nonstatus(&self.members, &message.members, self.size, platform, max_array_len, &mut common_kvs);
        let ghost common = kvs_model(common_kvs@);
        assert(common == spec_schema_header(sm) + spec_fields_nonstatus(
            sm.members,
            message.members@,
            sm.size,
            platform,
            max_array_len,
        ));
        let mut events: Vec<Vec<KeyValue>> = Vec::new();
        match first_status(&self.members) {
            None => {
                events.push(common_kvs);
                assert(events_model(events@) =~= seq![common]);
            },
            Some(j) => {
                proof {
                    crate::schema::lemma_flat_members_model_index(self.members@);
                    lemma_first_status_is_status(sm.members);
                }
                let status_schema = match as_status_field(&self.members[j]) {
                    Some(q) => q,
                    None => {
                        assert(false);
                        return events;
                    },
                };
                let ghost ss = flat_schema_model(status_schema.message_schema);
                if status_schema.offset > self.size || status_schema.size_function.is_none()
                    || status_schema.get_function.is_none() {
                    assert(events_model(events@) =~= Seq::<Seq<KvModel>>::empty());
                    return events;
                }
                let empty_items: Vec<MessageImage> = Vec::new();
                let unread = MemberImage::Unread;
                let status_img: &MemberImage = if j < message.members.len() {
                    &message.members[j]
                } else {
                    &unread
                };
                assert(*status_img == member_image_at(message.members@, j as int));
                let items: &Vec<MessageImage> = match status_img {
                    MemberImage::MessageSequence { stored_len, items } => if within_array_limit(
                        *stored_len,
                        max_array_len,
                    ) {
                        items
                    } else {
                        &empty_items
                    },
                    _ => &empty_items,
                };
                assert(items@ == limited_sequence_items(*status_img, max_array_len));
                let n = items.len();
                #[verifier::loop_isolation(false)]
                for i in 0..n
                    invariant
                        n == items@.len(),
                        spec_status_items(common, ss, items@.take(i as int), platform, max_array_len).1,
                        events_model(events@) == spec_status_items(
                            common,
                            ss,
                            items@.take(i as int),
                            platform,
                            max_array_len,
                        ).0,
                {
                    let mut kvs = duplicate_kvs(&common_kvs);
                    let ok = status_fields(
                        &status_schema.message_schema.members,
                        &items[i].members,
                        status_schema.message_schema.size,
                        platform,
                        max_array_len,
                        &mut kvs,
                    );
                    proof {
                        assert(items@.take(i + 1).drop_last() =~= items@.take(i as int));
                        assert(items@.take(i + 1).last() == items@[i as int]);
                    }
                    if !ok {
                        proof {
                            lemma_status_items_stuck(common, ss, items@, i + 1, platform, max_array_len);
                        }
                        return events;
                    }
                    let ghost before = events@;
                    let ghost kvsg = kvs;
                    events.push(kvs);
                    proof {
                        assert(events@ == before.push(kvsg));
                        assert(events_model(before.push(kvsg)) =~= events_model(before).push(kvs_model(kvsg@)));
                    }
                }
                proof {
                    assert(items@.take(n as int) =~= items@);
                }
            },
        }
        events
    }

    /// The events a message of this type becomes: one per status item of a
    /// diagnostic array, else the single event of the message.
    pub fn interpret_potentially_compound_message(
        &self,
        message: &MessageImage,
        platform: Platform,
        max_array_len: usize,
    ) -> (r: Vec<Vec<KeyValue>>)
        ensures
            events_model(r@) == spec_compound_message(self@, *message, platform, max_array_len),
    {
        if (is_diagnostic_namespace(self.namespace.as_str())) && str_eq(
            self.name.as_str(),
            "DiagnosticArray",
        ) {
            self.interepret_as_diagnostic_array(message, platform, max_array_len)
        } else {
            let kvs = self.interpret_single_message(message, platform, max_array_len);
            let mut events: Vec<Vec<KeyValue>> = Vec::new();
            let ghost kvsg = kvs;
            events.push(kvs);
            assert(events_model(events@) =~= seq![kvs_model(kvsg@)]);
            events
        }
    }
}

} // verus!
