//! ROS introspection type support: the field type codes, and the
//! conversion of type-support descriptions into message schemas.
//!
//! Type support lives in foreign memory. The code that reads it copies what
//! the conversion needs into the plain "image" types below; everything done
//! with those values happens here.
use vstd::prelude::*;
use crate::schema::{
    FlatRosMessageSchema, FlatSchemaModel, RosMessageMemberSchema, RosMessageSchema,
    spec_flatten_members, spec_flattenable_members,
};
use crate::text::{spec_utf8_lossy, string_views, utf8_lossy};

verus! {

// ---------------------------------------------------------------------
// Field type codes (rosidl_typesupport_introspection_c field_types)
// ---------------------------------------------------------------------

pub const ROS_TYPE_FLOAT: u32 = 1;
pub const ROS_TYPE_DOUBLE: u32 = 2;
pub const ROS_TYPE_LONG_DOUBLE: u32 = 3;
pub const ROS_TYPE_CHAR: u32 = 4;
pub const ROS_TYPE_WCHAR: u32 = 5;
pub const ROS_TYPE_BOOLEAN: u32 = 6;
pub const ROS_TYPE_OCTET: u32 = 7;
pub const ROS_TYPE_UINT8: u32 = 8;
pub const ROS_TYPE_INT8: u32 = 9;
pub const ROS_TYPE_UINT16: u32 = 10;
pub const ROS_TYPE_INT16: u32 = 11;
pub const ROS_TYPE_UINT32: u32 = 12;
pub const ROS_TYPE_INT32: u32 = 13;
pub const ROS_TYPE_UINT64: u32 = 14;
pub const ROS_TYPE_INT64: u32 = 15;
pub const ROS_TYPE_STRING: u32 = 16;
pub const ROS_TYPE_WSTRING: u32 = 17;
pub const ROS_TYPE_MESSAGE: u32 = 18;

/// Possible types for message fields on a ROS message.
/// The equivalent OMG IDL and C types of the different fields can be found
/// at http://design.ros2.org/articles/idl_interface_definition.html#type-mapping
#[derive(Debug, PartialEq, Eq, Copy, Clone, Structural)]
pub enum RosIdlTypesupportIntrospectionCFieldTypes {
    /// Equivalent to float in C types.
    Float,
    /// Equivalent to double in C types.
    Double,
    /// Equivalent to long double in C types.
    LongDouble,
    /// Equivalent to unsigned char in C types.
    Char,
    /// Equivalent to char16_t in C types.
    WChar,
    /// Equivalent to _Bool in C types.
    Boolean,
    /// Equivalent to unsigned char in C types.
    Octet,
    /// Equivalent to uint8_t in C types.
    UInt8,
    /// Equivalent to int8_t in C types.
    Int8,
    /// Equivalent to uint16_t in C types.
    UInt16,
    /// Equivalent to int16_t in C types.
    Int16,
    /// Equivalent to uint32_t in C types.
    UInt32,
    /// Equivalent to int32_t in C types.
    Int32,
    /// Equivalent to uint64_t in C types.
    UInt64,
    /// Equivalent to int64_t in C types.
    Int64,
    /// Equivalent to char * in C types.
    String,
    /// Equivalent to char16_t * in C types.
    WString,
    /// An embedded message type.
    Message,
}

impl RosIdlTypesupportIntrospectionCFieldTypes {
    /// The size in bytes of each field type: the width of its C type (a
    /// `long double` taken as the 16 bytes of the 64-bit Linux targets), and
    /// 0 for strings and nested messages, whose size is not fixed.
    pub open spec fn spec_byte_size(self) -> usize {
        match self {
            RosIdlTypesupportIntrospectionCFieldTypes::Float => 4,
            RosIdlTypesupportIntrospectionCFieldTypes::Double => 8,
            RosIdlTypesupportIntrospectionCFieldTypes::LongDouble => 16,
            RosIdlTypesupportIntrospectionCFieldTypes::Char => 1,
            RosIdlTypesupportIntrospectionCFieldTypes::WChar => 2,
            RosIdlTypesupportIntrospectionCFieldTypes::Boolean => 1,
            RosIdlTypesupportIntrospectionCFieldTypes::Octet => 1,
            RosIdlTypesupportIntrospectionCFieldTypes::UInt8 => 1,
            RosIdlTypesupportIntrospectionCFieldTypes::Int8 => 1,
            RosIdlTypesupportIntrospectionCFieldTypes::UInt16 => 2,
            RosIdlTypesupportIntrospectionCFieldTypes::Int16 => 2,
            RosIdlTypesupportIntrospectionCFieldTypes::UInt32 => 4,
            RosIdlTypesupportIntrospectionCFieldTypes::Int32 => 4,
            RosIdlTypesupportIntrospectionCFieldTypes::UInt64 => 8,
            RosIdlTypesupportIntrospectionCFieldTypes::Int64 => 8,
            RosIdlTypesupportIntrospectionCFieldTypes::String => 0,
            RosIdlTypesupportIntrospectionCFieldTypes::WString => 0,
            RosIdlTypesupportIntrospectionCFieldTypes::Message => 0,
        }
    }

    pub fn byte_size(&self) -> (r: usize)
        ensures
            r == self.spec_byte_size(),
    {
        match self {
            RosIdlTypesupportIntrospectionCFieldTypes::Float => 4,
            RosIdlTypesupportIntrospectionCFieldTypes::Double => 8,
            RosIdlTypesupportIntrospectionCFieldTypes::LongDouble => 16,
            RosIdlTypesupportIntrospectionCFieldTypes::Char => 1,
            RosIdlTypesupportIntrospectionCFieldTypes::WChar => 2,
            RosIdlTypesupportIntrospectionCFieldTypes::Boolean => 1,
            RosIdlTypesupportIntrospectionCFieldTypes::Octet => 1,
            RosIdlTypesupportIntrospectionCFieldTypes::UInt8 => 1,
            RosIdlTypesupportIntrospectionCFieldTypes::Int8 => 1,
            RosIdlTypesupportIntrospectionCFieldTypes::UInt16 => 2,
            RosIdlTypesupportIntrospectionCFieldTypes::Int16 => 2,
            RosIdlTypesupportIntrospectionCFieldTypes::UInt32 => 4,
            RosIdlTypesupportIntrospectionCFieldTypes::Int32 => 4,
            RosIdlTypesupportIntrospectionCFieldTypes::UInt64 => 8,
            RosIdlTypesupportIntrospectionCFieldTypes::Int64 => 8,
            RosIdlTypesupportIntrospectionCFieldTypes::String => 0,
            RosIdlTypesupportIntrospectionCFieldTypes::WString => 0,
            RosIdlTypesupportIntrospectionCFieldTypes::Message => 0,
        }
    }
}

/// How a message should be initialised by its type support's init function.
#[derive(Debug, PartialEq, Eq, Copy, Clone, Structural)]
pub enum RosIdlRuntimeCMessageInitialization {
    /// Initialize all fields of the message, either with the default value
    /// (if the field has one), or with an empty value (generally 0 or an
    /// empty string).
    All,
    /// Skip initialization of all fields of the message.  It is up to the user to
    /// ensure that all fields are initialized before use.
    Skip,
    /// Initialize all fields of the message to an empty value (generally 0 or an
    /// empty string).
    Zero,
    /// Initialize all fields of the message that have defaults; all other fields
    /// are left untouched.
    DefaultsOnly,
}

// ---------------------------------------------------------------------
// Type support images
// ---------------------------------------------------------------------

/// What is read of a message type-support handle: its identifier and, when
/// the identifier is an introspection one, the member description it holds.
#[derive(Debug)]
pub struct TypeSupportImage {
    /// The bytes of the `typesupport_identifier` C string, without the NUL.
    pub typesupport_identifier: Vec<u8>,
    pub members: Option<MessageMembersImage>,
}

/// What is read of a `MessageMembers` introspection record.
#[derive(Debug)]
pub struct MessageMembersImage {
    pub message_namespace: Vec<u8>,
    pub message_name: Vec<u8>,
    pub size_of: usize,
    pub members: Vec<MessageMemberImage>,
}

/// What is read of one `MessageMember` introspection record.
#[derive(Debug)]
pub struct MessageMemberImage {
    pub name: Vec<u8>,
    pub type_id: u8,
    pub offset: u32,
    pub is_array: bool,
    pub array_size: usize,
    pub is_upper_bound: bool,
    pub size_function: Option<usize>,
    pub get_const_function: Option<usize>,
    /// For a field of message type, the type support of that message.
    pub nested: Option<Box<TypeSupportImage>>,
}

/// What is read of a service type-support handle.
#[derive(Debug)]
pub struct ServiceTypeSupportImage {
    pub typesupport_identifier: Vec<u8>,
    pub members: Option<ServiceMembersImage>,
}

/// What is read of a `ServiceMembers` introspection record.
#[derive(Debug)]
pub struct ServiceMembersImage {
    pub service_namespace: Vec<u8>,
    pub service_name: Vec<u8>,
    pub request_members: MessageMembersImage,
    pub response_members: MessageMembersImage,
}

/// Identifier of the C introspection type support.
pub open spec fn spec_c_identifier() -> Seq<u8> {
    "rosidl_typesupport_introspection_c"@.map_values(|c: char| c as u8)
}

/// Identifier of the C++ introspection type support.
pub open spec fn spec_cpp_identifier() -> Seq<u8> {
    "rosidl_typesupport_introspection_cpp"@.map_values(|c: char| c as u8)
}

pub open spec fn spec_is_introspection_identifier(id: Seq<u8>) -> bool {
    id == spec_c_identifier() || id == spec_cpp_identifier()
}

fn bytes_equal_ascii(bytes: &[u8], s: &str) -> (r: bool)
    requires
        s.is_ascii(),
    ensures
        r == (bytes@ == s@.map_values(|c: char| c as u8)),
{
    broadcast use vstd::string::group_string_axioms;
    let sb = s.as_bytes();
    proof {
        assert(sb@ =~= s@.map_values(|c: char| c as u8));
    }
    if bytes.len() != sb.len() {
        return false;
    }
    let n = bytes.len();
    for i in 0..n
        invariant
            n == bytes@.len(),
            n == sb@.len(),
            sb@ == s@.map_values(|c: char| c as u8),
            forall|j: int| 0 <= j < i ==> bytes@[j] == sb@[j],
    {
        if bytes[i] != sb[i] {
            assert(bytes@[i as int] != sb@[i as int]);
            return false;
        }
    }
    assert(bytes@ =~= sb@);
    true
}

/// Whether a type-support identifier names one of the introspection type
/// supports (C or C++; both describe members with the same layout).
pub fn is_introspection_identifier(id: &[u8]) -> (r: bool)
    ensures
        r == spec_is_introspection_identifier(id@),
{
    proof {
        reveal_strlit("rosidl_typesupport_introspection_c");
        reveal_strlit("rosidl_typesupport_introspection_cpp");
    }
    bytes_equal_ascii(id, "rosidl_typesupport_introspection_c") || bytes_equal_ascii(
        id,
        "rosidl_typesupport_introspection_cpp",
    )
}

// ---------------------------------------------------------------------
// Conversion to schemas
// ---------------------------------------------------------------------

/// Whether a type-support image can be turned into a schema: it is an
/// introspection type support, its members were read, and so on down.
pub open spec fn spec_type_support_converts(ts: TypeSupportImage) -> bool
    decreases ts, 2int,
{
    &&& spec_is_introspection_identifier(ts.typesupport_identifier@)
    &&& ts.members is Some
    &&& spec_members_image_converts(ts.members.unwrap())
}

pub open spec fn spec_members_image_converts(mi: MessageMembersImage) -> bool
    decreases mi, 1int,
{
    spec_member_images_convert(mi.members@)
}

pub open spec fn spec_member_images_convert(ms: Seq<MessageMemberImage>) -> bool
    decreases ms, 0int,
{
    if ms.len() == 0 {
        true
    } else {
        spec_member_images_convert(ms.drop_last()) && spec_member_image_converts(ms.last())
    }
}

pub open spec fn spec_member_image_converts(m: MessageMemberImage) -> bool
    decreases m, 3int,
{
    m.type_id as u32 == ROS_TYPE_MESSAGE ==> (m.nested is Some && spec_type_support_converts(
        *m.nested.unwrap(),
    ))
}

/// `s` is the schema that the type-support image `ts` describes.
pub open spec fn spec_schema_of_type_support(s: RosMessageSchema, ts: TypeSupportImage) -> bool
    decreases ts, 2int,
{
    &&& ts.members is Some
    &&& spec_schema_of_members_image(s, ts.members.unwrap())
}

pub open spec fn spec_schema_of_members_image(s: RosMessageSchema, mi: MessageMembersImage) -> bool
    decreases mi, 1int,
{
    &&& s.namespace@ == spec_utf8_lossy(mi.message_namespace@)
    &&& s.name@ == spec_utf8_lossy(mi.message_name@)
    &&& s.size == mi.size_of
    &&& spec_members_of_images(s.members@, mi.members@)
}

pub open spec fn spec_members_of_images(ms: Seq<RosMessageMemberSchema>, imgs: Seq<MessageMemberImage>) -> bool
    decreases imgs, 0int,
{
    &&& ms.len() == imgs.len()
    &&& (imgs.len() > 0 ==> {
        &&& spec_members_of_images(ms.drop_last(), imgs.drop_last())
        &&& spec_member_of_image(ms.last(), imgs.last())
    })
}

/// `m` is the member schema that the member image `img` describes: a message
/// typed field becomes a nested message, an array field an array whose item
/// carries the field's name, type and offset.
pub open spec fn spec_member_of_image(m: RosMessageMemberSchema, img: MessageMemberImage) -> bool
    decreases img, 3int,
{
    let type_id = img.type_id as u32;
    let offset = img.offset as usize;
    let is_message = type_id == ROS_TYPE_MESSAGE;
    let item_matches = |item: RosMessageMemberSchema|
        if is_message {
            &&& item matches RosMessageMemberSchema::NestedMessage { name, offset: o, schema }
            &&& name@ == spec_utf8_lossy(img.name@)
            &&& o == offset
            &&& img.nested is Some
            &&& spec_schema_of_type_support(schema, *img.nested.unwrap())
        } else {
            &&& item matches RosMessageMemberSchema::Scalar { name, type_id: t, offset: o }
            &&& name@ == spec_utf8_lossy(img.name@)
            &&& t == type_id
            &&& o == offset
        };
    if img.is_array {
        &&& m matches RosMessageMemberSchema::Array {
            offset: o,
            item_schema,
            array_size,
            is_upper_bound,
            size_function,
            get_function,
        }
        &&& o == offset
        &&& array_size == img.array_size
        &&& is_upper_bound == img.is_upper_bound
        &&& size_function == img.size_function
        &&& get_function == img.get_const_function
        &&& item_matches(*item_schema)
    } else {
        item_matches(m)
    }
}

/// Builds the schema of one member from its image.
fn convert_member(img: MessageMemberImage) -> (r: Option<RosMessageMemberSchema>)
    ensures
        r is Some <==> spec_member_image_converts(img),
        r matches Some(m) ==> spec_member_of_image(m, img),
    decreases img, 3int,
{
    let ghost g = img;
    let name = utf8_lossy(img.name.as_slice());
    let type_id = img.type_id as u32;
    let offset = img.offset as usize;
    let item = if type_id == ROS_TYPE_MESSAGE {
        match img.nested {
            Some(nested) => {
                let ghost gn = *nested;
                match RosMessageSchema::from_message_type_support(*nested) {
                    Some(schema) => RosMessageMemberSchema::NestedMessage { name, offset, schema },
                    None => {
                        return None;
                    },
                }
            },
            None => {
                return None;
            },
        }
    } else {
        RosMessageMemberSchema::Scalar { name, type_id, offset }
    };
    if img.is_array {
        Some(
            RosMessageMemberSchema::Array {
                item_schema: Box::new(item),
                offset,
                array_size: img.array_size,
                is_upper_bound: img.is_upper_bound,
                size_function: img.size_function,
                get_function: img.get_const_function,
            },
        )
    } else {
        Some(item)
    }
}

/// Builds the member schemas of a message from its members image; `None`
/// when some message-typed member cannot be described.
pub fn convert_c_message_members_to_schemas(c_schema: MessageMembersImage) -> (r: Option<
    Vec<RosMessageMemberSchema>,
>)
    ensures
        r is Some <==> spec_members_image_converts(c_schema),
        r matches Some(v) ==> spec_members_of_images(v@, c_schema.members@),
    decreases c_schema, 1int,
{
    let ghost orig = c_schema;
    let ghost all = c_schema.members@;
    let mut rest = c_schema.members;
    let n = rest.len();
    let mut members: Vec<RosMessageMemberSchema> = Vec::new();
    let mut i: usize = 0;
    assert(rest@ =~= all.subrange(0, n as int));
    #[verifier::loop_isolation(false)]
    while rest.len() > 0
        invariant
            n == all.len(),
            i + rest@.len() == n,
            rest@ == all.subrange(i as int, n as int),
            spec_member_images_convert(all.take(i as int)),
            spec_members_of_images(members@, all.take(i as int)),
        decreases rest@.len(),
    {
        let c_member = rest.remove(0);
        proof {
            assert(c_member == all[i as int]);
            assert(decreases_to!(orig => c_member));
            assert(all.take(i + 1).drop_last() =~= all.take(i as int));
            assert(rest@ =~= all.subrange(i + 1, n as int));
        }
        let ghost before = members@;
        match convert_member(c_member) {
            Some(member) => {
                members.push(member);
                proof {
                    assert(members@.drop_last() =~= before);
                }
            },
            None => {
                proof {
                    lemma_member_images_prefix_fails(all, i as int);
                }
                return None;
            },
        }
        i = i + 1;
    }
    assert(all.take(n as int) =~= all);
    Some(members)
}

proof fn lemma_member_images_prefix_fails(all: Seq<MessageMemberImage>, i: int)
    requires
        0 <= i < all.len(),
        !spec_member_image_converts(all[i]),
    ensures
        !spec_member_images_convert(all),
    decreases all.len(),
{
    if i < all.len() - 1 {
        lemma_member_images_prefix_fails(all.drop_last(), i);
    }
}

impl RosMessageSchema {
    /// The schema described by a message type-support image; `None` when
    /// its identifier is not an introspection one, or when a nested message
    /// cannot be described.
    pub fn from_message_type_support(type_support: TypeSupportImage) -> (r: Option<Self>)
        ensures
            r is Some <==> spec_type_support_converts(type_support),
            r matches Some(s) ==> spec_schema_of_type_support(s, type_support),
        decreases type_support, 2int,
    {
        if !is_introspection_identifier(type_support.typesupport_identifier.as_slice()) {
            return None;
        }
        let c_schema = match type_support.members {
            Some(m) => m,
            None => {
                return None;
            },
        };
        let namespace = utf8_lossy(c_schema.message_namespace.as_slice());
        let name = utf8_lossy(c_schema.message_name.as_slice());
        let size = c_schema.size_of;
        let members = match convert_c_message_members_to_schemas(c_schema) {
            Some(m) => m,
            None => {
                return None;
            },
        };
        Some(RosMessageSchema { namespace, name, size, members })
    }
}

/// A service type: the flat schemas of its request and response messages.
#[derive(Debug)]
pub struct RosServiceSchema {
    pub namespace: String,
    pub name: String,
    pub request_members: FlatRosMessageSchema,
    pub response_members: FlatRosMessageSchema,
}

/// Whether the members described by `imgs` can be flattened at offset
/// `initial_offset` without any offset sum overflowing a `usize`.
pub open spec fn spec_member_images_flattenable(imgs: Seq<MessageMemberImage>, initial_offset: int) -> bool
    decreases imgs, 0int,
{
    if imgs.len() == 0 {
        true
    } else {
        spec_member_images_flattenable(imgs.drop_last(), initial_offset)
            && spec_member_image_flattenable(imgs.last(), initial_offset)
    }
}

pub open spec fn spec_member_image_flattenable(img: MessageMemberImage, initial_offset: int) -> bool
    decreases img, 3int,
{
    let is_message = img.type_id as u32 == ROS_TYPE_MESSAGE;
    let nested_ok = |off: int|
        img.nested matches Some(ts) && ts.members matches Some(mi) && spec_member_images_flattenable(
            mi.members@,
            off,
        );
    if img.is_array {
        initial_offset + img.offset <= usize::MAX && (is_message ==> nested_ok(0))
    } else if is_message {
        initial_offset + img.offset <= usize::MAX && nested_ok(initial_offset + img.offset)
    } else {
        initial_offset + img.offset <= usize::MAX
    }
}

/// Schemas built from images whose offsets fit can be flattened.
pub proof fn lemma_flattenable_from_images(
    ms: Seq<RosMessageMemberSchema>,
    imgs: Seq<MessageMemberImage>,
    initial_offset: int,
)
    requires
        spec_members_of_images(ms, imgs),
        spec_member_images_flattenable(imgs, initial_offset),
    ensures
        spec_flattenable_members(ms, initial_offset),
    decreases imgs, 0int,
{
    if imgs.len() > 0 {
        lemma_flattenable_from_images(ms.drop_last(), imgs.drop_last(), initial_offset);
        lemma_flattenable_from_image(ms.last(), imgs.last(), initial_offset);
    }
}

proof fn lemma_flattenable_from_image(m: RosMessageMemberSchema, img: MessageMemberImage, initial_offset: int)
    requires
        spec_member_of_image(m, img),
        spec_member_image_flattenable(img, initial_offset),
    ensures
        crate::schema::spec_flattenable_member(m, initial_offset),
    decreases img, 3int,
{
    if img.type_id as u32 == ROS_TYPE_MESSAGE {
        let ts = *img.nested.unwrap();
        let mi = ts.members.unwrap();
        assert(decreases_to!(img => mi));
        if img.is_array {
            if let RosMessageMemberSchema::Array { item_schema, .. } = m {
                if let RosMessageMemberSchema::NestedMessage { schema, .. } = *item_schema {
                    lemma_flattenable_from_images(schema.members@, mi.members@, 0);
                }
            }
        } else {
            if let RosMessageMemberSchema::NestedMessage { schema, .. } = m {
                lemma_flattenable_from_images(
                    schema.members@,
                    mi.members@,
                    initial_offset + img.offset,
                );
            }
        }
    }
}

/// Whether a service type-support image can be turned into a service schema.
pub open spec fn spec_service_type_support_converts(ts: ServiceTypeSupportImage) -> bool {
    &&& spec_is_introspection_identifier(ts.typesupport_identifier@)
    &&& ts.members is Some
    &&& spec_members_image_converts(ts.members.unwrap().request_members)
    &&& spec_members_image_converts(ts.members.unwrap().response_members)
}

/// The flat schema (under the service's namespace and name) of the
/// request or response part described by `mi`.
pub open spec fn spec_service_part(
    s: FlatSchemaModel,
    namespace: Seq<char>,
    name: Seq<char>,
    mi: MessageMembersImage,
) -> bool {
    &&& s.namespace == namespace
    &&& s.name == name
    &&& s.size == mi.size_of
    &&& exists|ms: Seq<RosMessageMemberSchema>|
        spec_members_of_images(ms, mi.members@) && s.members == spec_flatten_members(
            ms,
            Seq::empty(),
            0,
        )
}

impl RosServiceSchema {
    /// The service schema described by a service type-support image.
    ///
    /// Flattening the request and response members must not overflow an
    /// offset, as `spec_flattenable_members` states for each.
    pub fn from_service_type_support(type_support: ServiceTypeSupportImage) -> (r: Option<Self>)
        requires
            type_support.members matches Some(m) ==> {
                &&& spec_member_images_flattenable(m.request_members.members@, 0)
                &&& spec_member_images_flattenable(m.response_members.members@, 0)
            },
        ensures
            r is Some <==> spec_service_type_support_converts(type_support),
            r matches Some(s) ==> {
                let m = type_support.members.unwrap();
                &&& s.namespace@ == spec_utf8_lossy(m.service_namespace@)
                &&& s.name@ == spec_utf8_lossy(m.service_name@)
                &&& spec_service_part(s.request_members@, s.namespace@, s.name@, m.request_members)
                &&& spec_service_part(s.response_members@, s.namespace@, s.name@, m.response_members)
            },
    {
        if !is_introspection_identifier(type_support.typesupport_identifier.as_slice()) {
            return None;
        }
        let c_schema = match type_support.members {
            Some(m) => m,
            None => {
                return None;
            },
        };
        let ghost gm = c_schema;
        let namespace = utf8_lossy(c_schema.service_namespace.as_slice());
        let name = utf8_lossy(c_schema.service_name.as_slice());
        let request_size = c_schema.request_members.size_of;
        let response_size = c_schema.response_members.size_of;
        let request_members = match convert_c_message_members_to_schemas(c_schema.request_members) {
            Some(m) => m,
            None => {
                return None;
            },
        };
        let response_members = match convert_c_message_members_to_schemas(
            c_schema.response_members,
        ) {
            Some(m) => m,
            None => {
                return None;
            },
        };
        proof {
            lemma_flattenable_from_images(request_members@, gm.request_members.members@, 0);
            lemma_flattenable_from_images(response_members@, gm.response_members.members@, 0);
        }
        let request = FlatRosMessageSchema::from_nested_members(
            namespace.clone(),
            name.clone(),
            request_size,
            request_members,
            &Vec::new(),
        );
        let response = FlatRosMessageSchema::from_nested_members(
            namespace.clone(),
            name.clone(),
            response_size,
            response_members,
            &Vec::new(),
        );
        proof {
            assert(string_views(Seq::<String>::empty()) =~= Seq::<Seq<char>>::empty());
        }
        Some(
            RosServiceSchema {
                namespace,
                name,
                request_members: request,
                response_members: response,
            },
        )
    }
}

fn member_image_flattenable(img: &MessageMemberImage, initial_offset: usize) -> (r: bool)
    ensures
        r == spec_member_image_flattenable(*img, initial_offset as int),
    decreases img, 3int,
{
    let is_message = img.type_id as u32 == ROS_TYPE_MESSAGE;
    let fits = img.offset as usize <= usize::MAX - initial_offset;
    if !fits {
        return false;
    }
    let off: usize = if img.is_array { 0 } else { initial_offset + img.offset as usize };
    if !is_message {
        return true;
    }
    match &img.nested {
        Some(ts) => match &ts.members {
            Some(mi) => {
                proof {
                    assert(decreases_to!(img => mi.members));
                }
                member_images_flattenable(&mi.members, off)
            },
            None => false,
        },
        None => false,
    }
}

fn member_images_flattenable(imgs: &Vec<MessageMemberImage>, initial_offset: usize) -> (r: bool)
    ensures
        r == spec_member_images_flattenable(imgs@, initial_offset as int),
    decreases imgs, 0int,
{
    let n = imgs.len();
    assert(imgs@.take(0) =~= Seq::<MessageMemberImage>::empty());
    #[verifier::loop_isolation(false)]
    for i in 0..n
        invariant
            n == imgs@.len(),
            spec_member_images_flattenable(imgs@.take(i as int), initial_offset as int),
    {
        proof {
            assert(imgs@.take(i + 1).drop_last() =~= imgs@.take(i as int));
            assert(imgs@.take(i + 1).last() == imgs@[i as int]);
            assert(decreases_to!(imgs => imgs@[i as int]));
        }
        if !member_image_flattenable(&imgs[i], initial_offset) {
            proof {
                lemma_image_not_flattenable_extends(imgs@, i as int, initial_offset as int);
            }
            return false;
        }
    }
    assert(imgs@.take(n as int) =~= imgs@);
    true
}

proof fn lemma_image_not_flattenable_extends(imgs: Seq<MessageMemberImage>, i: int, off: int)
    requires
        0 <= i < imgs.len(),
        !spec_member_image_flattenable(imgs[i], off),
    ensures
        !spec_member_images_flattenable(imgs, off),
    decreases imgs.len(),
{
    if i < imgs.len() - 1 {
        lemma_image_not_flattenable_extends(imgs.drop_last(), i, off);
    }
}

impl ServiceTypeSupportImage {
    /// Whether the request and response members can be flattened without
    /// an offset overflowing (what `from_service_type_support` requires).
    pub fn is_flattenable(&self) -> (r: bool)
        ensures
            r == (self.members matches Some(m) ==> {
                &&& spec_member_images_flattenable(m.request_members.members@, 0)
                &&& spec_member_images_flattenable(m.response_members.members@, 0)
            }),
    {
        match &self.members {
            Some(m) => member_images_flattenable(&m.request_members.members, 0)
                && member_images_flattenable(&m.response_members.members, 0),
            None => true,
        }
    }
}

} // verus!
