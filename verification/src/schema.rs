//! Message schemas: the nested form read from ROS type support, and the
//! flat form used to interpret message payloads.
use vstd::prelude::*;
use crate::text::{join, spec_join, string_views};

verus! {

/// The address of a foreign function (a type-support accessor). The library
/// never calls it; it is kept so that the code reading message memory can.
pub type ForeignFnAddr = usize;

/// A message type, as described by ROS introspection type support.
#[derive(Debug)]
pub struct RosMessageSchema {
    pub namespace: String,
    pub name: String,
    pub size: usize,
    pub members: Vec<RosMessageMemberSchema>,
}

/// One field of a message type.
#[derive(Debug)]
pub enum RosMessageMemberSchema {
    Scalar {
        name: String,
        type_id: u32,
        offset: usize,
    },
    Array {
        offset: usize,
        item_schema: Box<RosMessageMemberSchema>,
        array_size: usize,
        is_upper_bound: bool,
        size_function: Option<ForeignFnAddr>,
        get_function: Option<ForeignFnAddr>,
    },
    NestedMessage {
        name: String,
        offset: usize,
        schema: RosMessageSchema,
    },
}

/// A message type with nested messages flattened into dotted keys.
#[derive(Debug)]
pub struct FlatRosMessageSchema {
    pub namespace: String,
    pub name: String,
    pub size: usize,
    pub members: Vec<FlatRosMessageMemberSchema>,
}

#[derive(Debug)]
pub enum FlatRosMessageMemberSchema {
    Scalar(ScalarMemberSchema),
    ScalarArray(ScalarArrayMemberSchema),
    MessageSequence(MessageSequenceMemberSchema),
}

/// A scalar field at a fixed offset of the message.
#[derive(Debug, Clone)]
pub struct ScalarMemberSchema {
    pub key: String,
    pub type_id: u32,
    pub offset: usize,
}

/// An array (fixed or dynamic) of scalars.
#[derive(Debug, Clone)]
pub struct ScalarArrayMemberSchema {
    pub key: String,
    pub type_id: u32,
    pub offset_in_item_slice: usize,
    pub array_size: usize,
    pub is_upper_bound: bool,
    pub size_function: Option<ForeignFnAddr>,
    pub get_function: Option<ForeignFnAddr>,
}

/// An array (fixed or dynamic) of nested messages.
#[derive(Debug)]
pub struct MessageSequenceMemberSchema {
    pub key: String,
    pub offset: usize,
    pub message_schema: FlatRosMessageSchema,
    pub array_size: usize,
    pub is_upper_bound: bool,
    pub size_function: Option<ForeignFnAddr>,
    pub get_function: Option<ForeignFnAddr>,
}

// ---------------------------------------------------------------------
// Mathematical model of the flat schema
// ---------------------------------------------------------------------

pub struct FlatSchemaModel {
    pub namespace: Seq<char>,
    pub name: Seq<char>,
    pub size: usize,
    pub members: Seq<FlatMemberModel>,
}

pub enum FlatMemberModel {
    Scalar { key: Seq<char>, type_id: u32, offset: int },
    ScalarArray {
        key: Seq<char>,
        type_id: u32,
        offset_in_item_slice: int,
        array_size: usize,
        is_upper_bound: bool,
        size_function: Option<ForeignFnAddr>,
        get_function: Option<ForeignFnAddr>,
    },
    MessageSequence {
        key: Seq<char>,
        offset: int,
        message_schema: FlatSchemaModel,
        array_size: usize,
        is_upper_bound: bool,
        size_function: Option<ForeignFnAddr>,
        get_function: Option<ForeignFnAddr>,
    },
}

pub open spec fn flat_schema_model(s: FlatRosMessageSchema) -> FlatSchemaModel
    decreases s, 1int,
{
    FlatSchemaModel {
        namespace: s.namespace@,
        name: s.name@,
        size: s.size,
        members: flat_members_model(s.members@),
    }
}

pub open spec fn flat_members_model(ms: Seq<FlatRosMessageMemberSchema>) -> Seq<FlatMemberModel>
    decreases ms, 0int,
{
    if ms.len() == 0 {
        Seq::empty()
    } else {
        flat_members_model(ms.drop_last()).push(flat_member_model(ms.last()))
    }
}

pub open spec fn flat_member_model(m: FlatRosMessageMemberSchema) -> FlatMemberModel
    decreases m, 2int,
{
    match m {
        FlatRosMessageMemberSchema::Scalar(s) => FlatMemberModel::Scalar {
            key: s.key@,
            type_id: s.type_id,
            offset: s.offset as int,
        },
        FlatRosMessageMemberSchema::ScalarArray(a) => FlatMemberModel::ScalarArray {
            key: a.key@,
            type_id: a.type_id,
            offset_in_item_slice: a.offset_in_item_slice as int,
            array_size: a.array_size,
            is_upper_bound: a.is_upper_bound,
            size_function: a.size_function,
            get_function: a.get_function,
        },
        FlatRosMessageMemberSchema::MessageSequence(q) => FlatMemberModel::MessageSequence {
            key: q.key@,
            offset: q.offset as int,
            message_schema: flat_schema_model(q.message_schema),
            array_size: q.array_size,
            is_upper_bound: q.is_upper_bound,
            size_function: q.size_function,
            get_function: q.get_function,
        },
    }
}

impl View for FlatRosMessageSchema {
    type V = FlatSchemaModel;

    open spec fn view(&self) -> FlatSchemaModel {
        flat_schema_model(*self)
    }
}

// ---------------------------------------------------------------------
// Flattening
// ---------------------------------------------------------------------

/// The dotted key of a field named `name` under the given prefix segments.
pub open spec fn spec_key(prefix: Seq<Seq<char>>, name: Seq<char>) -> Seq<char> {
    spec_join(prefix.push(name), seq!['.'])
}

/// Whether a member can be flattened at `initial_offset`: no array directly
/// holds another array, and no field offset, once added to the offsets of
/// the messages that enclose it, overflows a `usize`.
pub open spec fn spec_flattenable_member(m: RosMessageMemberSchema, initial_offset: int) -> bool
    decreases m, 2int,
{
    match m {
        RosMessageMemberSchema::Scalar { offset, .. } => initial_offset + offset <= usize::MAX,
        RosMessageMemberSchema::Array { item_schema, offset, .. } => match *item_schema {
            RosMessageMemberSchema::Scalar { offset: item_offset, .. } => initial_offset + item_offset
                <= usize::MAX,
            RosMessageMemberSchema::NestedMessage { schema, .. } => {
                &&& initial_offset + offset <= usize::MAX
                &&& spec_flattenable_members(schema.members@, 0)
            },
            RosMessageMemberSchema::Array { .. } => false,
        },
        RosMessageMemberSchema::NestedMessage { offset, schema, .. } => {
            &&& initial_offset + offset <= usize::MAX
            &&& spec_flattenable_members(schema.members@, initial_offset + offset)
        },
    }
}

pub open spec fn spec_flattenable_members(ms: Seq<RosMessageMemberSchema>, initial_offset: int) -> bool
    decreases ms, 0int,
{
    if ms.len() == 0 {
        true
    } else {
        spec_flattenable_members(ms.drop_last(), initial_offset)
            && spec_flattenable_member(ms.last(), initial_offset)
    }
}

/// Whether a whole message schema can be flattened.
pub open spec fn spec_flattenable_schema(s: RosMessageSchema) -> bool {
    spec_flattenable_members(s.members@, 0)
}

/// The flat members that one nested member becomes.
pub open spec fn spec_flatten_member(
    m: RosMessageMemberSchema,
    prefix: Seq<Seq<char>>,
    initial_offset: int,
) -> Seq<FlatMemberModel>
    decreases m, 2int,
{
    match m {
        RosMessageMemberSchema::Scalar { name, type_id, offset } => seq![
            FlatMemberModel::Scalar {
                key: spec_key(prefix, name@),
                type_id,
                offset: initial_offset + offset,
            },
        ],
        RosMessageMemberSchema::Array {
            item_schema,
            array_size,
            is_upper_bound,
            size_function,
            get_function,
            offset: array_offset,
        } => match *item_schema {
            RosMessageMemberSchema::Scalar { name, type_id, offset: scalar_offset } => seq![
                FlatMemberModel::ScalarArray {
                    key: spec_key(prefix, name@),
                    type_id,
                    offset_in_item_slice: initial_offset + scalar_offset,
                    array_size,
                    is_upper_bound,
                    size_function,
                    get_function,
                },
            ],
            RosMessageMemberSchema::NestedMessage { name, schema, .. } => seq![
                FlatMemberModel::MessageSequence {
                    key: spec_key(prefix, name@),
                    offset: initial_offset + array_offset,
                    message_schema: FlatSchemaModel {
                        namespace: schema.namespace@,
                        name: schema.name@,
                        size: schema.size,
                        members: spec_flatten_members(schema.members@, Seq::empty(), 0),
                    },
                    array_size,
                    is_upper_bound,
                    size_function,
                    get_function,
                },
            ],
            RosMessageMemberSchema::Array { .. } => Seq::empty(),
        },
        RosMessageMemberSchema::NestedMessage { name, offset, schema } => spec_flatten_members(
            schema.members@,
            prefix.push(name@),
            initial_offset + offset,
        ),
    }
}

/// The flat members that a list of nested members becomes, in order.
pub open spec fn spec_flatten_members(
    ms: Seq<RosMessageMemberSchema>,
    prefix: Seq<Seq<char>>,
    initial_offset: int,
) -> Seq<FlatMemberModel>
    decreases ms, 0int,
{
    if ms.len() == 0 {
        Seq::empty()
    } else {
        spec_flatten_members(ms.drop_last(), prefix, initial_offset) + spec_flatten_member(
            ms.last(),
            prefix,
            initial_offset,
        )
    }
}

/// The flat schema of a message type, with every key under `prefix`.
pub open spec fn spec_flatten_schema(s: RosMessageSchema, prefix: Seq<Seq<char>>) -> FlatSchemaModel {
    FlatSchemaModel {
        namespace: s.namespace@,
        name: s.name@,
        size: s.size,
        members: spec_flatten_members(s.members@, prefix, 0),
    }
}

/// A copy of a list of strings.
pub fn clone_strings(v: &Vec<String>) -> (r: Vec<String>)
    ensures
        string_views(r@) == string_views(v@),
{
    let mut out: Vec<String> = Vec::new();
    let n = v.len();
    for i in 0..n
        invariant
            n == v@.len(),
            string_views(out@) == string_views(v@.take(i as int)),
    {
        let ghost before = out@;
        let c = v[i].clone();
        out.push(c);
        proof {
            assert(v@.take(i + 1) =~= v@.take(i as int).push(v@[i as int]));
            assert(out@ == before.push(c));
            assert(string_views(before.push(c)) =~= string_views(before).push(c@));
            assert(string_views(v@.take(i as int).push(v@[i as int])) =~= string_views(v@.take(i as int)).push(v@[i as int]@));
        }
    }
    assert(v@.take(n as int) =~= v@);
    out
}

fn dotted_key(prefix: &Vec<String>, name: String) -> (r: String)
    ensures
        r@ == spec_key(string_views(prefix@), name@),
{
    let mut name_segs = clone_strings(prefix);
    let ghost nv = name@;
    name_segs.push(name);
    let r = join(&name_segs, ".");
    proof {
        reveal_strlit(".");
        assert("."@ =~= seq!['.']);
        assert(string_views(name_segs@) =~= string_views(prefix@).push(nv));
    }
    r
}

proof fn lemma_flat_members_push(v: Seq<FlatRosMessageMemberSchema>, m: FlatRosMessageMemberSchema)
    ensures
        flat_members_model(v.push(m)) == flat_members_model(v).push(flat_member_model(m)),
{
    assert(v.push(m).drop_last() =~= v);
}

impl RosMessageMemberSchema {
    /// The field name; for an array, the name of its items.
    pub open spec fn spec_name(self) -> Seq<char>
        decreases self,
    {
        match self {
            RosMessageMemberSchema::Scalar { name, .. } => name@,
            RosMessageMemberSchema::Array { item_schema, .. } => item_schema.spec_name(),
            RosMessageMemberSchema::NestedMessage { name, .. } => name@,
        }
    }

    pub fn name(&self) -> (r: &str)
        ensures
            r@ == self.spec_name(),
        decreases self,
    {
        match self {
            RosMessageMemberSchema::Scalar { name, .. } => name.as_str(),
            RosMessageMemberSchema::Array { item_schema, .. } => item_schema.name(),
            RosMessageMemberSchema::NestedMessage { name, .. } => name.as_str(),
        }
    }

    /// Appends the flat members that this member becomes under `prefix`,
    /// with offsets counted from `initial_offset`.
    pub fn flatten(
        self,
        prefix: &Vec<String>,
        initial_offset: usize,
        target: &mut Vec<FlatRosMessageMemberSchema>,
    )
        requires
            spec_flattenable_member(self, initial_offset as int),
        ensures
            flat_members_model(final(target)@) == flat_members_model(old(target)@) + spec_flatten_member(
                self,
                string_views(prefix@),
                initial_offset as int,
            ),
        decreases self,
    {
        let ghost old_t = target@;
        let ghost me = self;
        match self {
            RosMessageMemberSchema::Scalar { name, type_id, offset } => {
                let key = dotted_key(prefix, name);
                let m = FlatRosMessageMemberSchema::Scalar(
                    ScalarMemberSchema { key, type_id, offset: initial_offset + offset },
                );
                target.push(m);
                proof {
                    lemma_flat_members_push(old_t, m);
                }
            },
            RosMessageMemberSchema::Array {
                item_schema,
                array_size,
                is_upper_bound,
                size_function,
                get_function,
                offset: array_offset,
            } => {
                match *item_schema {
                    RosMessageMemberSchema::Scalar { name, type_id, offset: scalar_offset } => {
                        let key = dotted_key(prefix, name);
                        let m = FlatRosMessageMemberSchema::ScalarArray(
                            ScalarArrayMemberSchema {
                                key,
                                type_id,
                                offset_in_item_slice: initial_offset + scalar_offset,
                                array_size,
                                is_upper_bound,
                                size_function,
                                get_function,
                            },
                        );
                        target.push(m);
                        proof {
                            lemma_flat_members_push(old_t, m);
                        }
                    },
                    RosMessageMemberSchema::NestedMessage { name, offset: _, schema } => {
                        let key = dotted_key(prefix, name);
                        // The items are flattened with no prefix; it is added
                        // when their data is emitted.
                        let message_schema = schema.flatten(&Vec::new());
                        let m = FlatRosMessageMemberSchema::MessageSequence(
                            MessageSequenceMemberSchema {
                                key,
                                offset: initial_offset + array_offset,
                                message_schema,
                                array_size,
                                is_upper_bound,
                                size_function,
                                get_function,
                            },
                        );
                        target.push(m);
                        proof {
                            lemma_flat_members_push(old_t, m);
                            assert(string_views(Seq::<String>::empty()) =~= Seq::<Seq<char>>::empty());
                        }
                    },
                    RosMessageMemberSchema::Array { .. } => {
                        // ruled out by the precondition
                    },
                }
            },
            RosMessageMemberSchema::NestedMessage { name, offset, schema } => {
                let mut new_prefix = clone_strings(prefix);
                let ghost nv = name@;
                new_prefix.push(name);
                proof {
                    assert(string_views(new_prefix@) =~= string_views(prefix@).push(nv));
                }
                flatten_members_into(schema.members, &new_prefix, initial_offset + offset, target);
            },
        }
    }
}

/// Appends the flat members of each of `members`, in order.
fn flatten_members_into(
    members: Vec<RosMessageMemberSchema>,
    prefix: &Vec<String>,
    initial_offset: usize,
    target: &mut Vec<FlatRosMessageMemberSchema>,
)
    requires
        spec_flattenable_members(members@, initial_offset as int),
    ensures
        flat_members_model(final(target)@) == flat_members_model(old(target)@) + spec_flatten_members(
            members@,
            string_views(prefix@),
            initial_offset as int,
        ),
    decreases members, 0int,
{
    let ghost orig = members;
    let ghost all = members@;
    let ghost pv = string_views(prefix@);
    let mut rest = members;
    proof {
        lemma_flattenable_prefix(all, initial_offset as int);
    }
    let ghost n = all.len();
    let n_exec = rest.len();
    assert(rest@ =~= all.subrange(0, n as int));
    let mut i: usize = 0;
    #[verifier::loop_isolation(false)]
    while rest.len() > 0
        invariant
            n == all.len(),
            n == n_exec,
            orig@ == all,
            i + rest@.len() == n,
            rest@ == all.subrange(i as int, n as int),
            pv == string_views(prefix@),
            forall|k: int| 0 <= k <= n ==> spec_flattenable_members(#[trigger] all.take(k), initial_offset as int),
            flat_members_model(target@) == flat_members_model(old(target)@) + spec_flatten_members(
                all.take(i as int),
                pv,
                initial_offset as int,
            ),
        decreases rest@.len(),
    {
        let m = rest.remove(0);
        proof {
            assert(m == all[i as int]);
            assert(decreases_to!(orig => m));
            assert(all.take(i + 1).drop_last() =~= all.take(i as int));
            assert(all.take(i + 1).last() == all[i as int]);
            assert(spec_flattenable_members(all.take(i + 1), initial_offset as int));
            assert(rest@ =~= all.subrange(i + 1, n as int));
        }
        let ghost before = target@;
        m.flatten(prefix, initial_offset, target);
        i = i + 1;
        proof {
            assert(flat_members_model(target@) =~= flat_members_model(old(target)@) + spec_flatten_members(
                all.take(i as int),
                pv,
                initial_offset as int,
            ));
        }
    }
    assert(all.take(n as int) =~= all);
}

proof fn lemma_flattenable_prefix(ms: Seq<RosMessageMemberSchema>, off: int)
    requires
        spec_flattenable_members(ms, off),
    ensures
        forall|k: int| 0 <= k <= ms.len() ==> spec_flattenable_members(#[trigger] ms.take(k), off),
    decreases ms.len(),
{
    if ms.len() > 0 {
        lemma_flattenable_prefix(ms.drop_last(), off);
        assert forall|k: int| 0 <= k <= ms.len() implies spec_flattenable_members(#[trigger] ms.take(k), off) by {
            if k == ms.len() {
                assert(ms.take(k) =~= ms);
            } else {
                assert(ms.drop_last().take(k) =~= ms.take(k));
            }
        }
    } else {
        assert forall|k: int| 0 <= k <= ms.len() implies spec_flattenable_members(#[trigger] ms.take(k), off) by {
            assert(ms.take(k) =~= ms);
        }
    }
}

impl RosMessageSchema {
    /// The flat form of this message type, with every key under `prefix`.
    pub fn flatten(self, prefix: &Vec<String>) -> (r: FlatRosMessageSchema)
        requires
            spec_flattenable_schema(self),
        ensures
            r@ == spec_flatten_schema(self, string_views(prefix@)),
        decreases self, 0int,
    {
        FlatRosMessageSchema::from_nested_members(self.namespace, self.name, self.size, self.members, prefix)
    }
}

impl FlatRosMessageSchema {
    /// Flattens `members` (under `prefix`) into a flat message schema.
    pub fn from_nested_members(
        namespace: String,
        name: String,
        size: usize,
        members: Vec<RosMessageMemberSchema>,
        prefix: &Vec<String>,
    ) -> (r: Self)
        requires
            spec_flattenable_members(members@, 0),
        ensures
            r@ == (FlatSchemaModel {
                namespace: namespace@,
                name: name@,
                size,
                members: spec_flatten_members(members@, string_views(prefix@), 0),
            }),
        decreases members, 1int,
    {
        let mut flat_members: Vec<FlatRosMessageMemberSchema> = Vec::new();
        flatten_members_into(members, prefix, 0, &mut flat_members);
        proof {
            assert(flat_members_model(Seq::<FlatRosMessageMemberSchema>::empty()) =~= Seq::<FlatMemberModel>::empty());
        }
        let r = Self { namespace, name, size, members: flat_members };
        assert(flat_members_model(flat_members@) =~= spec_flatten_members(members@, string_views(prefix@), 0));
        r
    }
}

/// The model of a list of flat members is the list of their models.
pub proof fn lemma_flat_members_model_index(v: Seq<FlatRosMessageMemberSchema>)
    ensures
        flat_members_model(v).len() == v.len(),
        forall|j: int| 0 <= j < v.len() ==> #[trigger] flat_members_model(v)[j] == flat_member_model(v[j]),
    decreases v.len(),
{
    if v.len() > 0 {
        lemma_flat_members_model_index(v.drop_last());
    }
}

fn member_flattenable(m: &RosMessageMemberSchema, initial_offset: usize) -> (r: bool)
    ensures
        r == spec_flattenable_member(*m, initial_offset as int),
    decreases m, 1int,
{
    match m {
        RosMessageMemberSchema::Scalar { offset, .. } => *offset <= usize::MAX - initial_offset,
        RosMessageMemberSchema::Array { item_schema, offset, .. } => match &**item_schema {
            RosMessageMemberSchema::Scalar { offset: item_offset, .. } => *item_offset <= usize::MAX
                - initial_offset,
            RosMessageMemberSchema::NestedMessage { schema, .. } => {
                *offset <= usize::MAX - initial_offset && members_flattenable(&schema.members, 0)
            },
            RosMessageMemberSchema::Array { .. } => false,
        },
        RosMessageMemberSchema::NestedMessage { offset, schema, .. } => {
            *offset <= usize::MAX - initial_offset && members_flattenable(
                &schema.members,
                initial_offset + *offset,
            )
        },
    }
}

fn members_flattenable(ms: &Vec<RosMessageMemberSchema>, initial_offset: usize) -> (r: bool)
    ensures
        r == spec_flattenable_members(ms@, initial_offset as int),
    decreases ms, 0int,
{
    let n = ms.len();
    assert(ms@.take(0) =~= Seq::<RosMessageMemberSchema>::empty());
    #[verifier::loop_isolation(false)]
    for i in 0..n
        invariant
            n == ms@.len(),
            spec_flattenable_members(ms@.take(i as int), initial_offset as int),
    {
        proof {
            assert(ms@.take(i + 1).drop_last() =~= ms@.take(i as int));
            assert(ms@.take(i + 1).last() == ms@[i as int]);
            assert(decreases_to!(ms => ms@[i as int]));
        }
        if !member_flattenable(&ms[i], initial_offset) {
            proof {
                lemma_not_flattenable_extends(ms@, i as int, initial_offset as int);
            }
            return false;
        }
    }
    assert(ms@.take(n as int) =~= ms@);
    true
}

proof fn lemma_not_flattenable_extends(ms: Seq<RosMessageMemberSchema>, i: int, off: int)
    requires
        0 <= i < ms.len(),
        !spec_flattenable_member(ms[i], off),
    ensures
        !spec_flattenable_members(ms, off),
    decreases ms.len(),
{
    if i < ms.len() - 1 {
        lemma_not_flattenable_extends(ms.drop_last(), i, off);
    }
}

impl RosMessageSchema {
    /// Whether this schema can be flattened (see `spec_flattenable_schema`).
    pub fn is_flattenable(&self) -> (r: bool)
        ensures
            r == spec_flattenable_schema(*self),
    {
        members_flattenable(&self.members, 0)
    }
}

} // verus!
