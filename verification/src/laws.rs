//! Properties of the hook as a whole, stated over the same spec functions
//! that the contracts of its functions use.
use vstd::prelude::*;
use crate::attr::{AttrModel, KvModel, kvs_model};
use crate::config::{spec_listed_topic, spec_split_commas};
use crate::events::{
    CapturedMessage, CapturedMessageWithTime, CapturedTime, MessageDirection, PublisherGraphId, RmwEvent,
    ServiceEventType, TimelineId,
};
use crate::hooks::{
    NodeState, PublisherState, spec_captured, spec_pending_after_clock_read, spec_sent_on_clock_read,
};
use crate::interpret::{
    MemberImage, MessageImage, image_array_item, image_sequence_items, image_sequence_len, image_stored_len, limited_sequence_items,
    spec_array_len,
    member_image_at, spec_array_items, spec_compound_message, spec_diagnostic_events, spec_fields_nonstatus,
    spec_first_status, spec_interpret_member, spec_item_key, spec_schema_header, spec_status_items,
    spec_values_items, spec_values_member, spec_is_status_field, spec_is_values_field,
};
use crate::processor::{
    ProcessorState, spec_cache_after_interning, spec_has_event_name, spec_interned_key, spec_needs_declaration, spec_is_client_side, spec_message_event_attrs,
    opt_gid_attr, opt_timestamp_attr, spec_payload_attrs, spec_receive_timestamp, spec_rmw_event_attrs, spec_service_event_name, spec_timeline_name,
};
use crate::registry::{NodeRegistry, registered_node_timelines};
use crate::scalar::{Platform, spec_ros_to_attr_val};
use crate::schema::{
    FlatMemberModel, FlatSchemaModel, RosMessageMemberSchema, spec_flatten_member, spec_flatten_members, spec_key,
};
use crate::text::{
    hex_digit_char, is_lower_hex_digit, spec_hex, spec_join, spec_strip_all, spec_strip_one, spec_trim,
    spec_trim_end, spec_trim_start,
};

verus! {

// ---------------------------------------------------------------------
// Service interaction steps
// ---------------------------------------------------------------------

/// The opposite of the opposite step is the step itself.
pub proof fn lemma_opposite_is_involution(t: ServiceEventType)
    ensures
        t.spec_opposite().spec_opposite() == t,
{
}

/// A step and its opposite are observed on different sides of the
/// interaction: one on the client, the other on the service.
pub proof fn lemma_opposite_switches_side(t: ServiceEventType)
    ensures
        spec_is_client_side(t.spec_opposite()) == !spec_is_client_side(t),
{
}

// ---------------------------------------------------------------------
// Names
// ---------------------------------------------------------------------

proof fn lemma_strip_all_no_leading(s: Seq<char>, c: char)
    ensures
        spec_strip_all(s, c).len() == 0 || spec_strip_all(s, c)[0] != c,
    decreases s.len(),
{
    if s.len() > 0 && s[0] == c {
        lemma_strip_all_no_leading(s.drop_first(), c);
    }
}

/// A node's timeline name never begins with `/`, whatever the namespace.
pub proof fn lemma_timeline_name_has_no_leading_slash(node_namespace: Seq<char>, node_name: Seq<char>)
    ensures
        spec_timeline_name(node_namespace, node_name).len() == 0
            || spec_timeline_name(node_namespace, node_name)[0] != '/',
{
    lemma_strip_all_no_leading(node_namespace + seq!['/'] + node_name, '/');
}

/// A service's event name holds no `/`: leading ones are removed, the
/// others become `.`.
pub proof fn lemma_service_event_name_has_no_slash(service_name: Seq<char>)
    ensures
        forall|i: int|
            0 <= i < spec_service_event_name(service_name).len()
                ==> #[trigger] spec_service_event_name(service_name)[i] != '/',
{
}

/// A message's event carries its exact topic first and, when its payload
/// names no event, is named after the topic without its leading `/`.
pub proof fn lemma_message_event_named_after_topic(m: CapturedMessageWithTime, now: Option<u64>)
    ensures
        spec_message_event_attrs(m, now).len() >= 1,
        spec_message_event_attrs(m, now)[0] == ("event.ros.topic"@, AttrModel::String(m.msg.topic_name@)),
        !spec_has_event_name(kvs_model(m.msg.kvs@)) ==> spec_message_event_attrs(m, now).len() >= 2
            && spec_message_event_attrs(m, now)[1] == (
            "event.name"@,
            AttrModel::String(spec_strip_one(m.msg.topic_name@, '/')),
        ),
{
}

/// Payload attributes become event attributes: each keeps its value, and
/// its key is put under `event.` unless it already is there.
pub proof fn lemma_payload_keys_under_event(kvs: Seq<KvModel>)
    ensures
        spec_payload_attrs(kvs).len() == kvs.len(),
        forall|i: int|
            0 <= i < kvs.len() ==> {
                let k = (#[trigger] spec_payload_attrs(kvs)[i]).0;
                &&& k.len() >= 6
                &&& k.take(6) == "event."@
                &&& spec_payload_attrs(kvs)[i].1 == kvs[i].1
                &&& (kvs[i].0.len() >= 6 && kvs[i].0.take(6) == "event."@ ==> k == kvs[i].0)
            },
{
    reveal_strlit("event.");
    assert forall|i: int| 0 <= i < kvs.len() implies {
        let k = (#[trigger] spec_payload_attrs(kvs)[i]).0;
        &&& k.len() >= 6
        &&& k.take(6) == "event."@
        &&& spec_payload_attrs(kvs)[i].1 == kvs[i].1
        &&& (kvs[i].0.len() >= 6 && kvs[i].0.take(6) == "event."@ ==> k == kvs[i].0)
    } by {
        let k0 = kvs[i].0;
        if !(k0.len() >= 6 && k0.take(6) == "event."@) {
            assert(("event."@ + k0).take(6) =~= "event."@);
        }
    }
}

proof fn lemma_hex_digit_char(d: nat)
    requires
        d < 16,
    ensures
        is_lower_hex_digit(hex_digit_char(d)),
{
}

/// A byte string renders as exactly two lowercase hex digits per byte (so a
/// publisher gid as 48 of them).
pub proof fn lemma_hex_two_digits_per_byte(bytes: Seq<u8>)
    ensures
        spec_hex(bytes).len() == 2 * bytes.len(),
        forall|i: int| 0 <= i < spec_hex(bytes).len() ==> is_lower_hex_digit(#[trigger] spec_hex(bytes)[i]),
    decreases bytes.len(),
{
    if bytes.len() > 0 {
        let rest = bytes.drop_last();
        lemma_hex_two_digits_per_byte(rest);
        let b = bytes.last();
        lemma_hex_digit_char((b / 16) as nat);
        lemma_hex_digit_char((b % 16) as nat);
        let h = spec_hex(bytes);
        assert forall|i: int| 0 <= i < h.len() implies is_lower_hex_digit(#[trigger] h[i]) by {
            if i < spec_hex(rest).len() {
                assert(h[i] == spec_hex(rest)[i]);
            }
        }
    }
}

// ---------------------------------------------------------------------
// Configuration
// ---------------------------------------------------------------------

/// An empty list of ignored topics names no topic but the empty one, so no
/// real topic is ignored.
pub proof fn lemma_empty_topic_list_ignores_nothing(t: Seq<char>)
    ensures
        spec_listed_topic(Seq::<char>::empty(), t) <==> t.len() == 0,
{
    let e = Seq::<char>::empty();
    assert(spec_split_commas(e) == seq![e]);
    assert(spec_trim_start(e) == e);
    assert(spec_trim_end(e) == e);
    assert(spec_trim(e) == e);
    if t.len() == 0 {
        assert(t =~= e);
        assert(t == spec_trim(spec_split_commas(e)[0]));
    }
}

// ---------------------------------------------------------------------
// Flattening
// ---------------------------------------------------------------------

/// The key of a flat member.
pub open spec fn flat_member_key(m: FlatMemberModel) -> Seq<char> {
    match m {
        FlatMemberModel::Scalar { key, .. } => key,
        FlatMemberModel::ScalarArray { key, .. } => key,
        FlatMemberModel::MessageSequence { key, .. } => key,
    }
}

/// `key` lies under the dotted prefix: it begins with the prefix segments
/// joined by `.`, followed by one more `.`.
pub open spec fn key_under(key: Seq<char>, prefix: Seq<Seq<char>>) -> bool {
    let head = spec_join(prefix, seq!['.']) + seq!['.'];
    head.len() <= key.len() && key.take(head.len() as int) == head
}

proof fn lemma_join_push(prefix: Seq<Seq<char>>, name: Seq<char>)
    requires
        prefix.len() >= 1,
    ensures
        spec_join(prefix.push(name), seq!['.']) == spec_join(prefix, seq!['.']) + seq!['.'] + name,
{
    assert(prefix.push(name).drop_last() =~= prefix);
}

proof fn lemma_key_under_parent(key: Seq<char>, prefix: Seq<Seq<char>>, name: Seq<char>)
    requires
        prefix.len() >= 1,
        key_under(key, prefix.push(name)),
    ensures
        key_under(key, prefix),
{
    lemma_join_push(prefix, name);
    let head = spec_join(prefix, seq!['.']) + seq!['.'];
    let longer = spec_join(prefix.push(name), seq!['.']) + seq!['.'];
    assert(longer.take(head.len() as int) =~= head);
    assert(key.take(head.len() as int) =~= longer.take(head.len() as int));
}

proof fn lemma_named_key_under(prefix: Seq<Seq<char>>, name: Seq<char>)
    requires
        prefix.len() >= 1,
    ensures
        key_under(spec_join(prefix.push(name), seq!['.']), prefix),
{
    lemma_join_push(prefix, name);
    let head = spec_join(prefix, seq!['.']) + seq!['.'];
    assert((head + name).take(head.len() as int) =~= head);
    assert(spec_join(prefix.push(name), seq!['.']) =~= head + name);
}

/// Flattening one member under a non-empty prefix keys every flat member
/// it becomes under that prefix.
pub proof fn lemma_flatten_member_keys_under_prefix(
    m: RosMessageMemberSchema,
    prefix: Seq<Seq<char>>,
    initial_offset: int,
)
    requires
        prefix.len() >= 1,
    ensures
        forall|i: int|
            0 <= i < spec_flatten_member(m, prefix, initial_offset).len() ==> key_under(
                flat_member_key(#[trigger] spec_flatten_member(m, prefix, initial_offset)[i]),
                prefix,
            ),
    decreases m, 1int,
{
    let flat = spec_flatten_member(m, prefix, initial_offset);
    match m {
        RosMessageMemberSchema::Scalar { name, .. } => {
            lemma_named_key_under(prefix, name@);
        },
        RosMessageMemberSchema::Array { item_schema, .. } => {
            match *item_schema {
                RosMessageMemberSchema::Scalar { name, .. } => {
                    lemma_named_key_under(prefix, name@);
                },
                RosMessageMemberSchema::NestedMessage { name, .. } => {
                    lemma_named_key_under(prefix, name@);
                },
                RosMessageMemberSchema::Array { .. } => {},
            }
        },
        RosMessageMemberSchema::NestedMessage { name, offset, schema } => {
            let inner = prefix.push(name@);
            lemma_flatten_members_keys_under_prefix(schema.members@, inner, initial_offset + offset);
            assert(flat == spec_flatten_members(schema.members@, inner, initial_offset + offset));
            assert forall|i: int| 0 <= i < flat.len() implies key_under(
                flat_member_key(#[trigger] flat[i]),
                prefix,
            ) by {
                lemma_key_under_parent(flat_member_key(flat[i]), prefix, name@);
            }
        },
    }
}

/// Flattening members under a non-empty prefix keys every flat member under
/// that prefix: nested fields are joined to their parents by `.`.
pub proof fn lemma_flatten_members_keys_under_prefix(
    ms: Seq<RosMessageMemberSchema>,
    prefix: Seq<Seq<char>>,
    initial_offset: int,
)
    requires
        prefix.len() >= 1,
    ensures
        forall|i: int|
            0 <= i < spec_flatten_members(ms, prefix, initial_offset).len() ==> key_under(
                flat_member_key(#[trigger] spec_flatten_members(ms, prefix, initial_offset)[i]),
                prefix,
            ),
    decreases ms, 0int,
{
    if ms.len() > 0 {
        lemma_flatten_members_keys_under_prefix(ms.drop_last(), prefix, initial_offset);
        lemma_flatten_member_keys_under_prefix(ms.last(), prefix, initial_offset);
        let a = spec_flatten_members(ms.drop_last(), prefix, initial_offset);
        let b = spec_flatten_member(ms.last(), prefix, initial_offset);
        let all = spec_flatten_members(ms, prefix, initial_offset);
        assert(all == a + b);
        assert forall|i: int| 0 <= i < all.len() implies key_under(
            flat_member_key(#[trigger] all[i]),
            prefix,
        ) by {
            if i < a.len() {
                assert(all[i] == a[i]);
            } else {
                assert(all[i] == b[i - a.len()]);
            }
        }
    }
}

// ---------------------------------------------------------------------
// Arrays in payloads
// ---------------------------------------------------------------------

/// An array (of scalars or of messages) that holds more items than the
/// limit gives no attribute at all, and does not stop the interpretation of
/// the members after it.
pub proof fn lemma_long_arrays_are_skipped(
    m: FlatMemberModel,
    img: MemberImage,
    prefix: Option<Seq<char>>,
    size: usize,
    p: Platform,
    max_array_len: usize,
)
    requires
        m matches FlatMemberModel::ScalarArray { offset_in_item_slice, array_size, is_upper_bound, .. }
            ==> offset_in_item_slice <= size && spec_array_len(array_size, is_upper_bound, image_stored_len(img))
            > max_array_len,
        m matches FlatMemberModel::MessageSequence { offset, size_function, get_function, .. } ==> offset <= size
            && size_function is Some && get_function is Some && image_sequence_len(img) > max_array_len,
        !(m is Scalar),
    ensures
        spec_interpret_member(m, img, prefix, size, p, max_array_len) == (Seq::<KvModel>::empty(), true),
{
}

/// In a diagnostic array the limit holds too: a status sequence longer than
/// the limit gives no event, and a `values` sequence longer than the limit
/// gives no attribute.
pub proof fn lemma_long_diagnostic_sequences_are_skipped(
    s: FlatSchemaModel,
    img: MessageImage,
    values: FlatMemberModel,
    values_img: MemberImage,
    size: usize,
    p: Platform,
    max_array_len: usize,
)
    requires
        spec_first_status(s.members) matches Some(j) && image_sequence_len(member_image_at(img.members@, j))
            > max_array_len,
        image_sequence_len(values_img) > max_array_len,
    ensures
        spec_diagnostic_events(s, img, p, max_array_len) == Seq::<Seq<KvModel>>::empty(),
        spec_values_member(values, values_img, size, p, max_array_len) == Seq::<KvModel>::empty(),
{
    let common = spec_schema_header(s) + spec_fields_nonstatus(s.members, img.members@, s.size, p, max_array_len);
    match s.members[spec_first_status(s.members).unwrap()] {
        FlatMemberModel::MessageSequence { message_schema, .. } => {
            assert(spec_status_items(common, message_schema, Seq::empty(), p, max_array_len).0
                =~= Seq::<Seq<KvModel>>::empty());
        },
        _ => {},
    }
    assert(spec_values_items(values->MessageSequence_message_schema, Seq::empty(), p, max_array_len)
        =~= Seq::<KvModel>::empty());
}

/// Whether the flat members hold a scalar under `key` at `offset`.
pub open spec fn holds_flat_scalar(r: Seq<FlatMemberModel>, key: Seq<char>, offset: int) -> bool {
    exists|k: int| 0 <= k < r.len() && (#[trigger] r[k] matches FlatMemberModel::Scalar { key: kk, offset: o, .. }
        && kk == key && o == offset)
}

/// Whether the flat members hold a scalar array under `key` whose items
/// lie at `offset` within each item.
pub open spec fn holds_flat_scalar_array(r: Seq<FlatMemberModel>, key: Seq<char>, offset: int) -> bool {
    exists|k: int| 0 <= k < r.len() && (#[trigger] r[k] matches FlatMemberModel::ScalarArray {
        key: kk,
        offset_in_item_slice: o,
        ..
    } && kk == key && o == offset)
}

/// Whether the flat members hold a message sequence under `key` at `offset`.
pub open spec fn holds_flat_sequence(r: Seq<FlatMemberModel>, key: Seq<char>, offset: int) -> bool {
    exists|k: int| 0 <= k < r.len() && (#[trigger] r[k] matches FlatMemberModel::MessageSequence {
        key: kk,
        offset: o,
        ..
    } && kk == key && o == offset)
}

/// What one member becomes is among what the members become.
proof fn lemma_flatten_members_include(ms: Seq<RosMessageMemberSchema>, prefix: Seq<Seq<char>>, io: int, i: int, t: int)
    requires
        0 <= i < ms.len(),
        0 <= t < spec_flatten_member(ms[i], prefix, io).len(),
    ensures
        exists|k: int|
            0 <= k < spec_flatten_members(ms, prefix, io).len() && #[trigger] spec_flatten_members(ms, prefix, io)[k]
                == spec_flatten_member(ms[i], prefix, io)[t],
    decreases ms.len(),
{
    let r = spec_flatten_members(ms, prefix, io);
    let a = spec_flatten_members(ms.drop_last(), prefix, io);
    let b = spec_flatten_member(ms.last(), prefix, io);
    assert(r == a + b);
    if i == ms.len() - 1 {
        assert(r[a.len() + t] == b[t]);
    } else {
        assert(ms.drop_last()[i] == ms[i]);
        lemma_flatten_members_include(ms.drop_last(), prefix, io, i, t);
        let k = choose|k: int| 0 <= k < a.len() && #[trigger] a[k] == spec_flatten_member(ms[i], prefix, io)[t];
        assert(r[k] == a[k]);
    }
}

/// A field found among what one member becomes is found among what the
/// members become.
proof fn lemma_flat_members_lift(ms: Seq<RosMessageMemberSchema>, prefix: Seq<Seq<char>>, io: int, i: int)
    requires
        0 <= i < ms.len(),
    ensures
        forall|key: Seq<char>, off: int|
            #[trigger] holds_flat_scalar(spec_flatten_member(ms[i], prefix, io), key, off) ==> holds_flat_scalar(
                spec_flatten_members(ms, prefix, io),
                key,
                off,
            ),
        forall|key: Seq<char>, off: int|
            #[trigger] holds_flat_scalar_array(spec_flatten_member(ms[i], prefix, io), key, off)
                ==> holds_flat_scalar_array(spec_flatten_members(ms, prefix, io), key, off),
        forall|key: Seq<char>, off: int|
            #[trigger] holds_flat_sequence(spec_flatten_member(ms[i], prefix, io), key, off) ==> holds_flat_sequence(
                spec_flatten_members(ms, prefix, io),
                key,
                off,
            ),
{
    let fm = spec_flatten_member(ms[i], prefix, io);
    let r = spec_flatten_members(ms, prefix, io);
    assert forall|key: Seq<char>, off: int| #[trigger] holds_flat_scalar(fm, key, off) implies holds_flat_scalar(
        r,
        key,
        off,
    ) by {
        let t = choose|t: int| 0 <= t < fm.len() && (#[trigger] fm[t] matches FlatMemberModel::Scalar {
            key: kk,
            offset: o,
            ..
        } && kk == key && o == off);
        lemma_flatten_members_include(ms, prefix, io, i, t);
        let k = choose|k: int| 0 <= k < r.len() && #[trigger] r[k] == fm[t];
        assert(r[k] == fm[t]);
    }
    assert forall|key: Seq<char>, off: int| #[trigger] holds_flat_scalar_array(fm, key, off)
        implies holds_flat_scalar_array(r, key, off) by {
        let t = choose|t: int| 0 <= t < fm.len() && (#[trigger] fm[t] matches FlatMemberModel::ScalarArray {
            key: kk,
            offset_in_item_slice: o,
            ..
        } && kk == key && o == off);
        lemma_flatten_members_include(ms, prefix, io, i, t);
        let k = choose|k: int| 0 <= k < r.len() && #[trigger] r[k] == fm[t];
        assert(r[k] == fm[t]);
    }
    assert forall|key: Seq<char>, off: int| #[trigger] holds_flat_sequence(fm, key, off) implies holds_flat_sequence(
        r,
        key,
        off,
    ) by {
        let t = choose|t: int| 0 <= t < fm.len() && (#[trigger] fm[t] matches FlatMemberModel::MessageSequence {
            key: kk,
            offset: o,
            ..
        } && kk == key && o == off);
        lemma_flatten_members_include(ms, prefix, io, i, t);
        let k = choose|k: int| 0 <= k < r.len() && #[trigger] r[k] == fm[t];
        assert(r[k] == fm[t]);
    }
}

/// Flattening places every field at its own offset added to `initial_offset`,
/// the offset of the message that holds it: a scalar at its offset, the
/// items of a scalar array at the scalar's offset within each item, and a
/// sequence of messages at the array's offset.
pub proof fn lemma_flat_offsets_of_direct_members(
    ms: Seq<RosMessageMemberSchema>,
    prefix: Seq<Seq<char>>,
    initial_offset: int,
    i: int,
)
    requires
        0 <= i < ms.len(),
    ensures
        ({
            let r = spec_flatten_members(ms, prefix, initial_offset);
            match ms[i] {
                RosMessageMemberSchema::Scalar { name, offset, .. } => holds_flat_scalar(
                    r,
                    spec_key(prefix, name@),
                    initial_offset + offset,
                ),
                RosMessageMemberSchema::Array { item_schema, offset: array_offset, .. } => match *item_schema {
                    RosMessageMemberSchema::Scalar { name, offset, .. } => holds_flat_scalar_array(
                        r,
                        spec_key(prefix, name@),
                        initial_offset + offset,
                    ),
                    RosMessageMemberSchema::NestedMessage { name, .. } => holds_flat_sequence(
                        r,
                        spec_key(prefix, name@),
                        initial_offset + array_offset,
                    ),
                    _ => true,
                },
                _ => true,
            }
        }),
{
    let r = spec_flatten_members(ms, prefix, initial_offset);
    let fm = spec_flatten_member(ms[i], prefix, initial_offset);
    match ms[i] {
        RosMessageMemberSchema::Scalar { .. } => {
            lemma_flatten_members_include(ms, prefix, initial_offset, i, 0);
        },
        RosMessageMemberSchema::Array { item_schema, .. } => match *item_schema {
            RosMessageMemberSchema::Scalar { .. } => {
                lemma_flatten_members_include(ms, prefix, initial_offset, i, 0);
            },
            RosMessageMemberSchema::NestedMessage { .. } => {
                lemma_flatten_members_include(ms, prefix, initial_offset, i, 0);
            },
            _ => {},
        },
        _ => {},
    }
}

/// Offsets add up through nesting: a field of a message nested at `offset`
/// (within a message at `initial_offset`) is flattened, under the nested
/// member's name, at `initial_offset + offset` plus the field's own offset;
/// a sequence of messages in it at `initial_offset + offset` plus the
/// array's offset.
pub proof fn lemma_flat_offsets_add_up(
    ms: Seq<RosMessageMemberSchema>,
    prefix: Seq<Seq<char>>,
    initial_offset: int,
    i: int,
    j: int,
)
    requires
        0 <= i < ms.len(),
        ms[i] matches RosMessageMemberSchema::NestedMessage { schema, .. } && 0 <= j < schema.members@.len(),
    ensures
        ({
            let r = spec_flatten_members(ms, prefix, initial_offset);
            ms[i] matches RosMessageMemberSchema::NestedMessage { name: outer, offset: outer_offset, schema } && {
                let p = prefix.push(outer@);
                let base = initial_offset + outer_offset;
                match schema.members@[j] {
                    RosMessageMemberSchema::Scalar { name, offset, .. } => holds_flat_scalar(
                        r,
                        spec_key(p, name@),
                        base + offset,
                    ),
                    RosMessageMemberSchema::Array { item_schema, offset: array_offset, .. } => match *item_schema {
                        RosMessageMemberSchema::Scalar { name, offset, .. } => holds_flat_scalar_array(
                            r,
                            spec_key(p, name@),
                            base + offset,
                        ),
                        RosMessageMemberSchema::NestedMessage { name, .. } => holds_flat_sequence(
                            r,
                            spec_key(p, name@),
                            base + array_offset,
                        ),
                        _ => true,
                    },
                    _ => true,
                }
            }
        }),
{
    let r = spec_flatten_members(ms, prefix, initial_offset);
    match ms[i] {
        RosMessageMemberSchema::NestedMessage { name: outer, offset: outer_offset, schema } => {
            let p = prefix.push(outer@);
            let base = initial_offset + outer_offset;
            let inner = spec_flatten_members(schema.members@, p, base);
            assert(spec_flatten_member(ms[i], prefix, initial_offset) == inner);
            lemma_flat_offsets_of_direct_members(schema.members@, p, base, j);
            lemma_flat_members_lift(ms, prefix, initial_offset, i);
        },
        _ => {},
    }
}

/// An array of scalars no longer than the limit gives one attribute per
/// item, keyed by the array's key, `.` and the item's index, when every item
/// has an attribute form. A bounded sequence holds its stored number of
/// items, not its bound.
pub proof fn lemma_short_arrays_are_kept(
    m: FlatMemberModel,
    img: MemberImage,
    prefix: Option<Seq<char>>,
    size: usize,
    p: Platform,
    max_array_len: usize,
)
    requires
        m matches FlatMemberModel::ScalarArray {
            offset_in_item_slice,
            array_size,
            is_upper_bound,
            get_function,
            type_id,
            ..
        } && {
            let len = spec_array_len(array_size, is_upper_bound, image_stored_len(img));
            &&& offset_in_item_slice <= size
            &&& len <= max_array_len
            &&& get_function is Some
            &&& forall|i: int| 0 <= i < len ==> (#[trigger] spec_ros_to_attr_val(type_id, image_array_item(img, i), p)) is Some
        },
    ensures
        m matches FlatMemberModel::ScalarArray { key, array_size, is_upper_bound, type_id, .. } && {
            let len = spec_array_len(array_size, is_upper_bound, image_stored_len(img));
            let (kvs, ok) = spec_interpret_member(m, img, prefix, size, p, max_array_len);
            &&& ok
            &&& kvs.len() == len
            &&& forall|i: int|
                0 <= i < len ==> #[trigger] kvs[i] == (
                    spec_item_key(prefix, key, i as nat),
                    spec_ros_to_attr_val(type_id, image_array_item(img, i), p).unwrap(),
                )
        },
{
    match m {
        FlatMemberModel::ScalarArray { key, array_size, is_upper_bound, type_id, .. } => {
            let len = spec_array_len(array_size, is_upper_bound, image_stored_len(img));
            lemma_array_items_keyed_by_index(key, prefix, type_id, img, len as nat, p);
        },
        _ => {},
    }
}

/// The items of an array become one attribute each, keyed by the array's
/// key followed by `.` and the item's index, in order, as long as every
/// item has an attribute form.
pub proof fn lemma_array_items_keyed_by_index(
    key: Seq<char>,
    prefix: Option<Seq<char>>,
    type_id: u32,
    img: MemberImage,
    n: nat,
    p: Platform,
)
    requires
        forall|i: int| 0 <= i < n ==> (#[trigger] spec_ros_to_attr_val(type_id, image_array_item(img, i), p)) is Some,
    ensures
        spec_array_items(key, prefix, type_id, img, n, p).1,
        spec_array_items(key, prefix, type_id, img, n, p).0.len() == n,
        forall|i: int|
            0 <= i < n ==> #[trigger] spec_array_items(key, prefix, type_id, img, n, p).0[i] == (
                spec_item_key(prefix, key, i as nat),
                spec_ros_to_attr_val(type_id, image_array_item(img, i), p).unwrap(),
            ),
    decreases n,
{
    if n > 0 {
        lemma_array_items_keyed_by_index(key, prefix, type_id, img, (n - 1) as nat, p);
        assert(spec_ros_to_attr_val(type_id, image_array_item(img, n - 1), p) is Some);
    }
}

// ---------------------------------------------------------------------
// Diagnostic arrays
// ---------------------------------------------------------------------

proof fn lemma_status_items_start_with(
    common: Seq<KvModel>,
    sschema: FlatSchemaModel,
    items: Seq<MessageImage>,
    p: Platform,
    max_array_len: usize,
)
    ensures
        forall|i: int|
            0 <= i < spec_status_items(common, sschema, items, p, max_array_len).0.len() ==> {
                let e = #[trigger] spec_status_items(common, sschema, items, p, max_array_len).0[i];
                common.len() <= e.len() && e.take(common.len() as int) == common
            },
    decreases items.len(),
{
    if items.len() > 0 {
        lemma_status_items_start_with(common, sschema, items.drop_last(), p, max_array_len);
        let prev = spec_status_items(common, sschema, items.drop_last(), p, max_array_len).0;
        let all = spec_status_items(common, sschema, items, p, max_array_len).0;
        assert forall|i: int| 0 <= i < all.len() implies {
            let e = #[trigger] all[i];
            common.len() <= e.len() && e.take(common.len() as int) == common
        } by {
            if i < prev.len() {
                assert(all[i] == prev[i]);
            } else {
                let e = all[i];
                assert(e.take(common.len() as int) =~= common);
            }
        }
    }
}

/// Diagnostic messages are recognised in both spellings of their namespace,
/// `diagnostic_msgs::msg` and `diagnostic_msgs__msg`: an array named
/// `DiagnosticArray` becomes its diagnostic events, a `status` sequence of
/// `DiagnosticStatus` messages is its status field, and a `values`
/// sequence of `KeyValue` messages is a status item's values field.
pub proof fn lemma_diagnostic_messages_in_both_namespaces(
    s: FlatSchemaModel,
    img: MessageImage,
    m: FlatMemberModel,
    p: Platform,
    max_array_len: usize,
)
    ensures
        (s.namespace == "diagnostic_msgs::msg"@ || s.namespace == "diagnostic_msgs__msg"@) && s.name
            == "DiagnosticArray"@ ==> spec_compound_message(s, img, p, max_array_len) == spec_diagnostic_events(
            s,
            img,
            p,
            max_array_len,
        ),
        m matches FlatMemberModel::MessageSequence { key, message_schema, .. } ==> {
            let ns = message_schema.namespace;
            &&& (ns == "diagnostic_msgs::msg"@ || ns == "diagnostic_msgs__msg"@) && key == "status"@
                && message_schema.name == "DiagnosticStatus"@ ==> spec_is_status_field(m)
            &&& (ns == "diagnostic_msgs::msg"@ || ns == "diagnostic_msgs__msg"@) && key == "values"@
                && message_schema.name == "KeyValue"@ ==> spec_is_values_field(m)
        },
{
}

/// Every event a diagnostic array becomes begins with the same attributes:
/// the schema's name and namespace and the array's fields other than its
/// status items.
pub proof fn lemma_diagnostic_events_share_common_attributes(
    s: FlatSchemaModel,
    img: MessageImage,
    p: Platform,
    max_array_len: usize,
)
    ensures
        forall|i: int|
            0 <= i < spec_diagnostic_events(s, img, p, max_array_len).len() ==> {
                let common = spec_schema_header(s) + spec_fields_nonstatus(
                    s.members,
                    img.members@,
                    s.size,
                    p,
                    max_array_len,
                );
                let e = #[trigger] spec_diagnostic_events(s, img, p, max_array_len)[i];
                common.len() <= e.len() && e.take(common.len() as int) == common
            },
{
    let common = spec_schema_header(s) + spec_fields_nonstatus(s.members, img.members@, s.size, p, max_array_len);
    let evs = spec_diagnostic_events(s, img, p, max_array_len);
    assert forall|i: int| 0 <= i < evs.len() implies {
        let e = #[trigger] evs[i];
        common.len() <= e.len() && e.take(common.len() as int) == common
    } by {
        match spec_first_status(s.members) {
            None => {
                assert(evs[i] == common);
                assert(common.take(common.len() as int) =~= common);
            },
            Some(j) => match s.members[j] {
                FlatMemberModel::MessageSequence { message_schema, .. } => {
                    lemma_status_items_start_with(
                        common,
                        message_schema,
                        limited_sequence_items(member_image_at(img.members@, j), max_array_len),
                        p,
                        max_array_len,
                    );
                },
                _ => {},
            },
        }
    }
}

// ---------------------------------------------------------------------
// The processor's bookkeeping
// ---------------------------------------------------------------------

/// A node's destruction is sent once, on the timeline it was created on:
/// after its creation the registry holds the node's timeline at its
/// address; after its destruction the registry holds nothing there, so a
/// second destruction sends nothing and leaves the registry as it is.
pub proof fn lemma_node_destroyed_once(
    before: NodeRegistry,
    created: NodeRegistry,
    destroyed: NodeRegistry,
    ptr: usize,
    timeline: u128,
)
    requires
        registered_node_timelines(created) == registered_node_timelines(before).insert(ptr, timeline),
        registered_node_timelines(destroyed) == registered_node_timelines(created).remove(ptr),
    ensures
        registered_node_timelines(created).dom().contains(ptr),
        registered_node_timelines(created)[ptr] == timeline,
        !registered_node_timelines(destroyed).dom().contains(ptr),
        registered_node_timelines(destroyed).remove(ptr) == registered_node_timelines(destroyed),
{
    assert(registered_node_timelines(destroyed).remove(ptr) =~= registered_node_timelines(destroyed));
}

/// A received message whose receive time converts to a non-zero epoch time
/// `t` is stamped with `t` itself: its event carries `event.timestamp` =
/// `t`, and the event is the same whatever the time now is.
pub proof fn lemma_received_message_keeps_its_receive_time(
    m: CapturedMessageWithTime,
    now: Option<u64>,
    other_now: Option<u64>,
    t: u64,
)
    requires
        m.msg.direction is Receive,
        m.receive_time matches Some(ct) && ct.spec_epoch_nanos() == Some(t),
        t != 0,
    ensures
        spec_message_event_attrs(m, now).contains(("event.timestamp"@, AttrModel::Timestamp(t))),
        spec_message_event_attrs(m, now) == spec_message_event_attrs(m, other_now),
{
    let topic = m.msg.topic_name@;
    let payload = kvs_model(m.msg.kvs@);
    let head = seq![("event.ros.topic"@, AttrModel::String(topic))] + if spec_has_event_name(payload) {
        Seq::empty()
    } else {
        seq![("event.name"@, AttrModel::String(spec_strip_one(topic, '/')))]
    };
    match m.msg.direction {
        MessageDirection::Receive { remote_publisher_graph_id } => {
            let d = seq![("event.ros.received"@, AttrModel::Bool(true))] + opt_timestamp_attr(
                "event.interaction.remote_event.timestamp"@,
                m.publish_time.spec_epoch_nanos(),
            ) + match remote_publisher_graph_id {
                Some(g) => seq![
                    (
                        "event.interaction.remote_timeline.ros.publisher_gid."@ + spec_hex(g.0@),
                        AttrModel::Bool(true),
                    ),
                ],
                None => Seq::empty(),
            } + seq![("event.timestamp"@, AttrModel::Timestamp(t))];
            assert(spec_receive_timestamp(m.receive_time, now) == Some(t));
            assert(spec_receive_timestamp(m.receive_time, other_now) == Some(t));
            let a = spec_message_event_attrs(m, now);
            assert(a == head + d + spec_payload_attrs(payload));
            assert(a[head.len() + d.len() - 1 as int] == ("event.timestamp"@, AttrModel::Timestamp(t)));
        },
        _ => {},
    }
}

/// A node's creation event names the node: `event.ros.node.namespace` holds
/// the node's namespace and `event.ros.node.name` its name, and neither key
/// holds anything else.
pub proof fn lemma_create_node_event_names_the_node(e: RmwEvent)
    requires
        e is CreateNode,
    ensures
        e matches RmwEvent::CreateNode { node_namespace, node_name, .. } && {
            let a = spec_rmw_event_attrs(e);
            &&& a.contains(("event.ros.node.namespace"@, AttrModel::String(node_namespace@)))
            &&& a.contains(("event.ros.node.name"@, AttrModel::String(node_name@)))
            &&& forall|k: int|
                0 <= k < a.len() && (#[trigger] a[k]).0 == "event.ros.node.namespace"@ ==> a[k].1
                    == AttrModel::String(node_namespace@)
            &&& forall|k: int|
                0 <= k < a.len() && (#[trigger] a[k]).0 == "event.ros.node.name"@ ==> a[k].1 == AttrModel::String(
                    node_name@,
                )
        },
{
    reveal_strlit("event.timestamp");
    reveal_strlit("event.name");
    reveal_strlit("event.ros.node.namespace");
    reveal_strlit("event.ros.node.name");
    match e {
        RmwEvent::CreateNode { node_namespace, node_name, .. } => {
            let ts = match e.spec_timestamp() {
                Some(t) => seq![("event.timestamp"@, AttrModel::Timestamp(t))],
                None => Seq::<KvModel>::empty(),
            };
            let body = seq![
                ("event.name"@, AttrModel::String("rmw.create_node"@)),
                ("event.ros.node.namespace"@, AttrModel::String(node_namespace@)),
                ("event.ros.node.name"@, AttrModel::String(node_name@)),
            ];
            let a = spec_rmw_event_attrs(e);
            assert(a == ts + body);
            assert(a[ts.len() as int + 1] == body[1]);
            assert(a[ts.len() as int + 2] == body[2]);
            assert("event.timestamp"@.len() != "event.ros.node.namespace"@.len());
            assert("event.timestamp"@.len() != "event.ros.node.name"@.len());
            assert("event.name"@.len() != "event.ros.node.namespace"@.len());
            assert("event.name"@.len() != "event.ros.node.name"@.len());
            assert("event.ros.node.name"@.len() != "event.ros.node.namespace"@.len());
            assert forall|k: int| 0 <= k < a.len() implies {
                &&& (#[trigger] a[k]).0 == "event.ros.node.namespace"@ ==> a[k].1 == AttrModel::String(
                    node_namespace@,
                )
                &&& a[k].0 == "event.ros.node.name"@ ==> a[k].1 == AttrModel::String(node_name@)
            } by {
                if k < ts.len() {
                    assert(a[k] == ts[k]);
                } else {
                    assert(a[k] == body[k - ts.len()]);
                }
            }
        },
        _ => {},
    }
}

/// A received message with no usable receive time (none, one that does not
/// convert, or zero) is stamped with the time now, when the clock could be
/// read.
pub proof fn lemma_received_message_without_receive_time_uses_now(m: CapturedMessageWithTime, n: u64)
    requires
        m.msg.direction is Receive,
        m.receive_time matches Some(ct) ==> ct.spec_epoch_nanos() is None || ct.spec_epoch_nanos() == Some(0u64),
    ensures
        spec_message_event_attrs(m, Some(n)).contains(("event.timestamp"@, AttrModel::Timestamp(n))),
{
    let topic = m.msg.topic_name@;
    let payload = kvs_model(m.msg.kvs@);
    let head = seq![("event.ros.topic"@, AttrModel::String(topic))] + if spec_has_event_name(payload) {
        Seq::empty()
    } else {
        seq![("event.name"@, AttrModel::String(spec_strip_one(topic, '/')))]
    };
    match m.msg.direction {
        MessageDirection::Receive { remote_publisher_graph_id } => {
            let d = seq![("event.ros.received"@, AttrModel::Bool(true))] + opt_timestamp_attr(
                "event.interaction.remote_event.timestamp"@,
                m.publish_time.spec_epoch_nanos(),
            ) + match remote_publisher_graph_id {
                Some(g) => seq![
                    (
                        "event.interaction.remote_timeline.ros.publisher_gid."@ + spec_hex(g.0@),
                        AttrModel::Bool(true),
                    ),
                ],
                None => Seq::empty(),
            } + seq![("event.timestamp"@, AttrModel::Timestamp(n))];
            assert(spec_receive_timestamp(m.receive_time, Some(n)) == Some(n));
            let a = spec_message_event_attrs(m, Some(n));
            assert(a == head + d + spec_payload_attrs(payload));
            assert(a[head.len() + d.len() - 1 as int] == ("event.timestamp"@, AttrModel::Timestamp(n)));
        },
        _ => {},
    }
}

/// The event of a middleware call carries what the call was about: its
/// time under `event.timestamp`, and for the creation of a publisher,
/// subscription, service or client, the topic or service name and the
/// namespace and name of the message type, each under its own key.
pub proof fn lemma_rmw_events_carry_their_fields(e: RmwEvent)
    ensures
        e.spec_timestamp() matches Some(t) ==> spec_rmw_event_attrs(e).contains(
            ("event.timestamp"@, AttrModel::Timestamp(t)),
        ),
        e matches RmwEvent::CreatePublisher { topic, schema_namespace, schema_name, .. } ==> {
            let a = spec_rmw_event_attrs(e);
            &&& a.contains(("event.ros.topic"@, AttrModel::String(topic@)))
            &&& a.contains(("event.ros.schema.namespace"@, AttrModel::String(schema_namespace@)))
            &&& a.contains(("event.ros.schema.name"@, AttrModel::String(schema_name@)))
        },
        e matches RmwEvent::CreateSubscription { topic, schema_namespace, schema_name, .. } ==> {
            let a = spec_rmw_event_attrs(e);
            &&& a.contains(("event.ros.topic"@, AttrModel::String(topic@)))
            &&& a.contains(("event.ros.schema.namespace"@, AttrModel::String(schema_namespace@)))
            &&& a.contains(("event.ros.schema.name"@, AttrModel::String(schema_name@)))
        },
        e matches RmwEvent::CreateService { service_name, schema_namespace, schema_name, .. } ==> {
            let a = spec_rmw_event_attrs(e);
            &&& a.contains(("event.ros.service.name"@, AttrModel::String(service_name@)))
            &&& a.contains(("event.ros.schema.namespace"@, AttrModel::String(schema_namespace@)))
            &&& a.contains(("event.ros.schema.name"@, AttrModel::String(schema_name@)))
        },
        e matches RmwEvent::CreateClient { service_name, schema_namespace, schema_name, .. } ==> {
            let a = spec_rmw_event_attrs(e);
            &&& a.contains(("event.ros.service.name"@, AttrModel::String(service_name@)))
            &&& a.contains(("event.ros.schema.namespace"@, AttrModel::String(schema_namespace@)))
            &&& a.contains(("event.ros.schema.name"@, AttrModel::String(schema_name@)))
        },
{
    let a = spec_rmw_event_attrs(e);
    let ts = match e.spec_timestamp() {
        Some(t) => seq![("event.timestamp"@, AttrModel::Timestamp(t))],
        None => Seq::<KvModel>::empty(),
    };
    let n = ts.len() as int;
    match e.spec_timestamp() {
        Some(t) => {
            assert(a[0] == ts[0]);
        },
        None => {},
    }
    match e {
        RmwEvent::CreatePublisher { gid, .. } => {
            let g = opt_gid_attr("event.ros.publisher_gid"@, gid);
            let k = n + 2 + g.len();
            assert(a[k] == ("event.ros.topic"@, AttrModel::String(e->CreatePublisher_topic@)));
            assert(a[k + 1] == ("event.ros.schema.namespace"@, AttrModel::String(
                e->CreatePublisher_schema_namespace@,
            )));
            assert(a[k + 2] == ("event.ros.schema.name"@, AttrModel::String(e->CreatePublisher_schema_name@)));
        },
        RmwEvent::CreateSubscription { topic, schema_namespace, schema_name, .. } => {
            assert(a[n + 1] == ("event.ros.topic"@, AttrModel::String(topic@)));
            assert(a[n + 2] == ("event.ros.schema.namespace"@, AttrModel::String(schema_namespace@)));
            assert(a[n + 3] == ("event.ros.schema.name"@, AttrModel::String(schema_name@)));
        },
        RmwEvent::CreateService { service_name, schema_namespace, schema_name, .. } => {
            assert(a[n + 1] == ("event.ros.service.name"@, AttrModel::String(service_name@)));
            assert(a[n + 2] == ("event.ros.schema.namespace"@, AttrModel::String(schema_namespace@)));
            assert(a[n + 3] == ("event.ros.schema.name"@, AttrModel::String(schema_name@)));
        },
        RmwEvent::CreateClient { service_name, schema_namespace, schema_name, .. } => {
            assert(a[n + 1] == ("event.ros.service.name"@, AttrModel::String(service_name@)));
            assert(a[n + 2] == ("event.ros.schema.namespace"@, AttrModel::String(schema_namespace@)));
            assert(a[n + 3] == ("event.ros.schema.name"@, AttrModel::String(schema_name@)));
        },
        _ => {},
    }
}

/// An attribute name is declared to the backend only while the cache lacks
/// it: once interned with the key the backend gave, interning it again needs
/// no declaration, gives the same key and leaves the cache as it was.
pub proof fn lemma_attr_key_declared_once(
    cache: Map<Seq<char>, u32>,
    name: Seq<char>,
    declared: u32,
    declared_again: u32,
)
    ensures
        spec_needs_declaration(cache, name) <==> !cache.dom().contains(name),
        !spec_needs_declaration(spec_cache_after_interning(cache, name, declared), name),
        spec_interned_key(spec_cache_after_interning(cache, name, declared), name, declared_again)
            == spec_interned_key(cache, name, declared),
        spec_cache_after_interning(spec_cache_after_interning(cache, name, declared), name, declared_again)
            == spec_cache_after_interning(cache, name, declared),
{
}

/// A timeline's metadata goes out once: once the timeline has been noted as
/// created, noting it again reports it as not new and changes nothing.
pub proof fn lemma_timeline_metadata_sent_once(before: ProcessorState, after: ProcessorState, t: TimelineId)
    requires
        after.created() == before.created().insert(t),
    ensures
        after.created().contains(t),
        after.created().insert(t) == after.created(),
{
    assert(after.created().insert(t) =~= after.created());
}

/// A publisher's metadata goes out once per timeline.
pub proof fn lemma_publisher_metadata_sent_once(
    before: ProcessorState,
    after: ProcessorState,
    t: TimelineId,
    gid: PublisherGraphId,
)
    requires
        after.publishers_described() == before.publishers_described().insert((t, gid)),
    ensures
        after.publishers_described().contains((t, gid)),
        after.publishers_described().insert((t, gid)) == after.publishers_described(),
{
    assert(after.publishers_described().insert((t, gid)) =~= after.publishers_described());
}

/// A service client's metadata goes out once per timeline.
pub proof fn lemma_client_metadata_sent_once(
    before: ProcessorState,
    after: ProcessorState,
    t: TimelineId,
    guid: [u8; 16],
)
    requires
        after.clients_described() == before.clients_described().insert((t, guid)),
    ensures
        after.clients_described().contains((t, guid)),
        after.clients_described().insert((t, guid)) == after.clients_described(),
{
    assert(after.clients_described().insert((t, guid)) =~= after.clients_described());
}

// ---------------------------------------------------------------------
// Steps across several calls
// ---------------------------------------------------------------------

/// Handling an RMW event: its timeline is opened when `needs_open` says so
/// (`s1`, recorded by `timeline_opened`), the event is planned (`s2`, by
/// `plan_rmw_event`) and sent with the ordering of `s2`, and `event_sent`
/// records that (`s3`). Afterwards the event's timeline is the open one, the
/// ordering has risen by exactly one, and the event's attributes begin with
/// its timestamp when it has one, and with its name otherwise.
pub proof fn lemma_rmw_event_step(
    s0: ProcessorState,
    s1: ProcessorState,
    s2: ProcessorState,
    s3: ProcessorState,
    e: RmwEvent,
    event_kvs: Seq<KvModel>,
)
    requires
        s1.open_timeline() == Some(e.spec_timeline_id()),
        s1.next_ordering() == s0.next_ordering(),
        s2.open_timeline() == s1.open_timeline(),
        s2.next_ordering() == s1.next_ordering(),
        event_kvs == spec_rmw_event_attrs(e),
        s3.next_ordering() == s2.next_ordering() + 1,
        s3.open_timeline() == s2.open_timeline(),
    ensures
        s3.open_timeline() == Some(e.spec_timeline_id()),
        s3.next_ordering() == s0.next_ordering() + 1,
        event_kvs.len() >= 1,
        e.spec_timestamp() matches Some(ts) ==> event_kvs[0] == ("event.timestamp"@, AttrModel::Timestamp(ts)),
        e.spec_timestamp() is None ==> event_kvs[0].0 == "event.name"@,
{
}

/// The messages a publish leaves waiting go out on the next read of the
/// transport clock on the same thread, and once only: a read of another
/// clock neither sends nor drops them, and a second read of the transport
/// clock sends nothing.
pub proof fn lemma_clock_read_sends_once(
    pending: Option<Vec<CapturedMessage>>,
    msgs: Vec<CapturedMessage>,
    other_clock: usize,
    later_clock: usize,
)
    requires
        other_clock != 0,
    ensures
        spec_sent_on_clock_read(Some(msgs), 0) == msgs@,
        spec_sent_on_clock_read(Some(msgs), other_clock) == Seq::<CapturedMessage>::empty(),
        spec_pending_after_clock_read(Some(msgs), other_clock) == Some(msgs),
        spec_sent_on_clock_read(spec_pending_after_clock_read(pending, 0), later_clock)
            == Seq::<CapturedMessage>::empty(),
{
}

/// Publishing a message and then the transport's clock read: the messages
/// captured when the message was published (by `capture_published`) are
/// stamped (by `stamp_published`) with the time read, one for each event
/// the message becomes, in order, each sent from the publisher and carrying
/// no receive time.
pub proof fn lemma_publish_then_clock(
    publisher: PublisherState,
    message: MessageImage,
    p: Platform,
    max_array_len: usize,
    captured: Seq<CapturedMessage>,
    stamped: Seq<CapturedMessageWithTime>,
    tv_sec: i64,
    tv_nsec: i64,
)
    requires
        captured.len() == spec_compound_message(publisher.message_schema@, message, p, max_array_len).len(),
        forall|i: int|
            0 <= i < captured.len() ==> spec_captured(
                #[trigger] captured[i],
                spec_compound_message(publisher.message_schema@, message, p, max_array_len)[i],
                publisher.topic_name@,
                publisher.node_namespace@,
                publisher.node_name@,
                publisher.node_timeline_id,
                MessageDirection::Send { local_publisher_graph_id: publisher.graph_id },
            ),
        stamped.len() == captured.len(),
        forall|i: int|
            0 <= i < stamped.len() ==> (#[trigger] stamped[i]).msg == captured[i] && stamped[i].publish_time
                == (CapturedTime::Compound { sec: tv_sec, nsec: tv_nsec }) && (stamped[i].receive_time is None),
    ensures
        stamped.len() == spec_compound_message(publisher.message_schema@, message, p, max_array_len).len(),
        forall|i: int|
            0 <= i < stamped.len() ==> {
                &&& spec_captured(
                    (#[trigger] stamped[i]).msg,
                    spec_compound_message(publisher.message_schema@, message, p, max_array_len)[i],
                    publisher.topic_name@,
                    publisher.node_namespace@,
                    publisher.node_name@,
                    publisher.node_timeline_id,
                    MessageDirection::Send { local_publisher_graph_id: publisher.graph_id },
                )
                &&& stamped[i].publish_time == (CapturedTime::Compound { sec: tv_sec, nsec: tv_nsec })
                &&& stamped[i].receive_time is None
            },
{
    assert forall|i: int| 0 <= i < stamped.len() implies {
        &&& spec_captured(
            (#[trigger] stamped[i]).msg,
            spec_compound_message(publisher.message_schema@, message, p, max_array_len)[i],
            publisher.topic_name@,
            publisher.node_namespace@,
            publisher.node_name@,
            publisher.node_timeline_id,
            MessageDirection::Send { local_publisher_graph_id: publisher.graph_id },
        )
        &&& stamped[i].publish_time == (CapturedTime::Compound { sec: tv_sec, nsec: tv_nsec })
        &&& stamped[i].receive_time is None
    } by {
        assert(spec_captured(
            captured[i],
            spec_compound_message(publisher.message_schema@, message, p, max_array_len)[i],
            publisher.topic_name@,
            publisher.node_namespace@,
            publisher.node_name@,
            publisher.node_timeline_id,
            MessageDirection::Send { local_publisher_graph_id: publisher.graph_id },
        ));
    }
}

/// A node's destruction is reported on the timeline its creation was: the
/// state `node_created` keeps carries the creation event's timeline, and
/// `node_destroyed` reports that state's timeline.
pub proof fn lemma_node_destroyed_on_its_timeline(node: NodeState, created: RmwEvent, destroyed: RmwEvent)
    requires
        created matches RmwEvent::CreateNode { node_timeline_id: t, .. } && t == node.timeline_id,
        destroyed matches RmwEvent::DestroyNode { node_timeline_id, .. } && node_timeline_id == node.timeline_id,
    ensures
        destroyed.spec_timeline_id() == created.spec_timeline_id(),
{
}

} // verus!
