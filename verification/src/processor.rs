//! The message processor's decisions: what each event becomes in Modality,
//! and the bookkeeping of timelines and publishers.
//!
//! The processor's client talks to the Modality backend; it asks the state
//! here whether a timeline must be opened or described, and sends the
//! attributes built here.
use vstd::prelude::*;
use crate::attr::{AttrModel, AttrValue, KeyValue, KvModel, kvs_model, lemma_kvs_model_push};
use crate::events::{
    CapturedMessageWithTime, CapturedTime, MessageDirection, PublisherGraphId, RmwEvent,
    ServiceEvent, ServiceEventType, TimelineId,
};
use crate::text::{
    bytes_to_hex, concatenate, has_prefix, replace_char, spec_hex, spec_replace_char, spec_strip_all,
    spec_strip_one, strip_all_leading, strip_one_leading, to_owned_string,
};

verus! {

broadcast use vstd::string::group_string_axioms;

// ---------------------------------------------------------------------
// Sets keyed by timelines (fxhash sets)
// ---------------------------------------------------------------------

/// `std::hash::BuildHasherDefault`, the hasher builder of an fxhash set,
/// carried through opaquely.
#[verifier::external_type_specification]
#[verifier::external_body]
#[verifier::reject_recursive_types(H)]
pub struct ExBuildHasherDefault<H>(std::hash::BuildHasherDefault<H>);

/// `fxhash::FxHasher`, carried through opaquely.
#[verifier::external_type_specification]
#[verifier::external_body]
pub struct ExFxHasher(fxhash::FxHasher);

/// `HashSet::insert` on an fxhash set of timelines: adds the timeline and
/// says whether it was new. The key's `Eq` and `Hash` are derived from its
/// single integer field, so the set behaves as a mathematical set.
#[verifier::external_body]
fn insert_timeline(set: &mut fxhash::FxHashSet<TimelineId>, k: TimelineId) -> (r: bool)
    ensures
        final(set)@ == old(set)@.insert(k),
        r == !old(set)@.contains(k),
{
    set.insert(k)
}

/// `HashSet::insert` on an fxhash set of (timeline, publisher gid) pairs:
/// adds the pair and says whether it was new. `Eq` and `Hash` of both parts
/// are derived from plain integers and bytes, so the set behaves as a
/// mathematical set.
#[verifier::external_body]
fn insert_timeline_publisher(
    set: &mut fxhash::FxHashSet<(TimelineId, PublisherGraphId)>,
    k: (TimelineId, PublisherGraphId),
) -> (r: bool)
    ensures
        final(set)@ == old(set)@.insert(k),
        r == !old(set)@.contains(k),
{
    set.insert(k)
}

/// `HashSet::insert` on an fxhash set of (timeline, service client guid)
/// pairs: adds the pair and says whether it was new. `Eq` and `Hash` of both
/// parts are derived from plain integers and bytes, so the set behaves as a
/// mathematical set.
#[verifier::external_body]
fn insert_timeline_client(
    set: &mut fxhash::FxHashSet<(TimelineId, [u8; 16])>,
    k: (TimelineId, [u8; 16]),
) -> (r: bool)
    ensures
        final(set)@ == old(set)@.insert(k),
        r == !old(set)@.contains(k),
{
    set.insert(k)
}

/// `FxHashSet::default()`: an empty set.
#[verifier::external_body]
fn new_timeline_client_set() -> (r: fxhash::FxHashSet<(TimelineId, [u8; 16])>)
    ensures
        r@ == Set::<(TimelineId, [u8; 16])>::empty(),
{
    fxhash::FxHashSet::default()
}

/// `FxHashSet::default()`: an empty set.
#[verifier::external_body]
fn new_timeline_set() -> (r: fxhash::FxHashSet<TimelineId>)
    ensures
        r@ == Set::<TimelineId>::empty(),
{
    fxhash::FxHashSet::default()
}

/// `FxHashSet::default()`: an empty set.
#[verifier::external_body]
fn new_timeline_publisher_set() -> (r: fxhash::FxHashSet<(TimelineId, PublisherGraphId)>)
    ensures
        r@ == Set::<(TimelineId, PublisherGraphId)>::empty(),
{
    fxhash::FxHashSet::default()
}

// ---------------------------------------------------------------------
// Declared attribute keys (an fxhash map)
// ---------------------------------------------------------------------

/// What an fxhash map of attribute keys holds: the interned key of each
/// declared name, by the name's characters.
pub uninterp spec fn declared_attr_keys(m: AttrKeyMap) -> Map<Seq<char>, u32>;

/// An fxhash map from attribute names to interned keys.
pub type AttrKeyMap = fxhash::FxHashMap<String, u32>;

/// `FxHashMap::default()`: an empty map.
#[verifier::external_body]
fn new_attr_key_map() -> (r: AttrKeyMap)
    ensures
        declared_attr_keys(r).dom() == Set::<Seq<char>>::empty(),
{
    fxhash::FxHashMap::default()
}

/// `HashMap::get` with a `&str` name: the key stored under the string with
/// the same characters (`String` hashes and compares as its `str` does).
#[verifier::external_body]
fn attr_key_map_get(m: &AttrKeyMap, name: &str) -> (r: Option<u32>)
    ensures
        r is Some <==> declared_attr_keys(*m).dom().contains(name@),
        r matches Some(k) ==> k == declared_attr_keys(*m)[name@],
{
    m.get(name).copied()
}

/// `HashMap::insert`: stores `key` under `name`, replacing an earlier key;
/// the map is handed back.
#[verifier::external_body]
fn attr_key_map_insert(m: AttrKeyMap, name: String, key: u32) -> (r: AttrKeyMap)
    ensures
        declared_attr_keys(r) == declared_attr_keys(m).insert(name@, key),
{
    let mut m = m;
    m.insert(name, key);
    m
}

/// Whether interning `name` needs a declaration to the backend: only when
/// the cache has no key for it.
pub open spec fn spec_needs_declaration(cache: Map<Seq<char>, u32>, name: Seq<char>) -> bool {
    !cache.dom().contains(name)
}

/// The key interning `name` gives: the cached one, else the one the
/// backend declared.
pub open spec fn spec_interned_key(cache: Map<Seq<char>, u32>, name: Seq<char>, declared: u32) -> u32 {
    if cache.dom().contains(name) {
        cache[name]
    } else {
        declared
    }
}

/// The cache after interning `name`: the declared key is recorded when
/// there was none.
pub open spec fn spec_cache_after_interning(cache: Map<Seq<char>, u32>, name: Seq<char>, declared: u32) -> Map<
    Seq<char>,
    u32,
> {
    if cache.dom().contains(name) {
        cache
    } else {
        cache.insert(name, declared)
    }
}

/// The attribute keys the backend has interned, by name: a name is
/// declared once, and its key reused after that.
pub struct AttrKeyCache {
    keys: AttrKeyMap,
}

impl View for AttrKeyCache {
    type V = Map<Seq<char>, u32>;

    closed spec fn view(&self) -> Map<Seq<char>, u32> {
        declared_attr_keys(self.keys)
    }
}

impl AttrKeyCache {
    pub fn new() -> (r: Self)
        ensures
            r@ == Map::<Seq<char>, u32>::empty(),
    {
        let r = AttrKeyCache { keys: new_attr_key_map() };
        assert(r@ =~= Map::<Seq<char>, u32>::empty());
        r
    }

    /// The key of `name` when it was declared before; `None` when it must
    /// be declared.
    pub fn lookup(&self, name: &str) -> (r: Option<u32>)
        ensures
            r is None <==> spec_needs_declaration(self@, name@),
            r matches Some(k) ==> k == self@[name@] && forall|d: u32| k == spec_interned_key(self@, name@, d),
    {
        attr_key_map_get(&self.keys, name)
    }

    /// Records the key the backend gave `name` when it was declared.
    pub fn record(&mut self, name: &str, key: u32)
        ensures
            final(self)@ == old(self)@.insert(name@, key),
            spec_needs_declaration(old(self)@, name@) ==> final(self)@ == spec_cache_after_interning(
                old(self)@,
                name@,
                key,
            ) && key == spec_interned_key(old(self)@, name@, key),
    {
        let mut keys = new_attr_key_map();
        std::mem::swap(&mut keys, &mut self.keys);
        self.keys = attr_key_map_insert(keys, to_owned_string(name), key);
    }
}

// ---------------------------------------------------------------------
// Processor state
// ---------------------------------------------------------------------

/// What the message processor remembers between events.
pub struct ProcessorState {
    created_timelines: fxhash::FxHashSet<TimelineId>,
    sent_timeline_publisher_metadata: fxhash::FxHashSet<(TimelineId, PublisherGraphId)>,
    sent_timeline_client_metadata: fxhash::FxHashSet<(TimelineId, [u8; 16])>,
    currently_open_timeline: Option<TimelineId>,
    ordering: u128,
}

impl ProcessorState {
    /// Timelines whose metadata has been sent.
    pub closed spec fn created(&self) -> Set<TimelineId> {
        self.created_timelines@
    }

    /// (timeline, publisher) pairs whose metadata has been sent.
    pub closed spec fn publishers_described(&self) -> Set<(TimelineId, PublisherGraphId)> {
        self.sent_timeline_publisher_metadata@
    }

    /// (timeline, service client guid) pairs whose metadata has been sent.
    pub closed spec fn clients_described(&self) -> Set<(TimelineId, [u8; 16])> {
        self.sent_timeline_client_metadata@
    }

    /// The timeline the client has open.
    pub closed spec fn open_timeline(&self) -> Option<TimelineId> {
        self.currently_open_timeline
    }

    /// The ordering number of the next event.
    pub closed spec fn next_ordering(&self) -> u128 {
        self.ordering
    }

    pub fn new() -> (r: Self)
        ensures
            r.created() == Set::<TimelineId>::empty(),
            r.publishers_described() == Set::<(TimelineId, PublisherGraphId)>::empty(),
            r.clients_described() == Set::<(TimelineId, [u8; 16])>::empty(),
            r.open_timeline() is None,
            r.next_ordering() == 0,
    {
        ProcessorState {
            created_timelines: new_timeline_set(),
            sent_timeline_publisher_metadata: new_timeline_publisher_set(),
            sent_timeline_client_metadata: new_timeline_client_set(),
            currently_open_timeline: None,
            ordering: 0,
        }
    }

    /// Whether the client must open `timeline_id` before an event on it.
    pub fn needs_open(&self, timeline_id: &TimelineId) -> (r: bool)
        ensures
            r == (self.open_timeline() != Some(*timeline_id)),
    {
        match self.currently_open_timeline {
            Some(t) => t != *timeline_id,
            None => true,
        }
    }

    /// Records that the client opened `timeline_id`.
    pub fn timeline_opened(&mut self, timeline_id: TimelineId)
        ensures
            final(self).open_timeline() == Some(timeline_id),
            final(self).created() == old(self).created(),
            final(self).publishers_described() == old(self).publishers_described(),
            final(self).clients_described() == old(self).clients_described(),
            final(self).next_ordering() == old(self).next_ordering(),
    {
        self.currently_open_timeline = Some(timeline_id);
    }

    /// Records that the metadata of `timeline_id` is being sent; `true` when
    /// it had not been yet (only then is it sent).
    pub fn note_timeline_created(&mut self, timeline_id: TimelineId) -> (is_new: bool)
        ensures
            is_new == !old(self).created().contains(timeline_id),
            final(self).created() == old(self).created().insert(timeline_id),
            final(self).open_timeline() == old(self).open_timeline(),
            final(self).publishers_described() == old(self).publishers_described(),
            final(self).clients_described() == old(self).clients_described(),
            final(self).next_ordering() == old(self).next_ordering(),
    {
        insert_timeline(&mut self.created_timelines, timeline_id)
    }

    /// Records that the publisher metadata of `gid` on `timeline_id` is being
    /// sent; `true` when it had not been yet.
    pub fn note_publisher_described(&mut self, timeline_id: TimelineId, gid: PublisherGraphId) -> (is_new:
        bool)
        ensures
            is_new == !old(self).publishers_described().contains((timeline_id, gid)),
            final(self).publishers_described() == old(self).publishers_described().insert(
                (timeline_id, gid),
            ),
            final(self).clients_described() == old(self).clients_described(),
            final(self).created() == old(self).created(),
            final(self).open_timeline() == old(self).open_timeline(),
            final(self).next_ordering() == old(self).next_ordering(),
    {
        insert_timeline_publisher(&mut self.sent_timeline_publisher_metadata, (timeline_id, gid))
    }

    /// Records that the service client metadata of `guid` on `timeline_id`
    /// is being sent; `true` when it had not been yet.
    pub fn note_client_described(&mut self, timeline_id: TimelineId, guid: [u8; 16]) -> (is_new: bool)
        ensures
            is_new == !old(self).clients_described().contains((timeline_id, guid)),
            final(self).clients_described() == old(self).clients_described().insert((timeline_id, guid)),
            final(self).publishers_described() == old(self).publishers_described(),
            final(self).created() == old(self).created(),
            final(self).open_timeline() == old(self).open_timeline(),
            final(self).next_ordering() == old(self).next_ordering(),
    {
        insert_timeline_client(&mut self.sent_timeline_client_metadata, (timeline_id, guid))
    }

    /// The ordering number to send the next event with.
    pub fn ordering(&self) -> (r: u128)
        ensures
            r == self.next_ordering(),
    {
        self.ordering
    }

    /// Records that an event was sent: the next one gets the next number.
    pub fn event_sent(&mut self)
        requires
            old(self).next_ordering() < u128::MAX,
        ensures
            final(self).next_ordering() == old(self).next_ordering() + 1,
            final(self).created() == old(self).created(),
            final(self).open_timeline() == old(self).open_timeline(),
            final(self).publishers_described() == old(self).publishers_described(),
            final(self).clients_described() == old(self).clients_described(),
    {
        self.ordering = self.ordering + 1;
    }
}

// ---------------------------------------------------------------------
// Attribute lists
// ---------------------------------------------------------------------

pub open spec fn s_attr(s: Seq<char>) -> AttrModel {
    AttrModel::String(s)
}

fn kv(key: &str, value: AttrValue) -> (r: KeyValue)
    ensures
        r.0@ == key@,
        r.1 == value,
{
    (to_owned_string(key), value)
}

fn push_kv(kvs: &mut Vec<KeyValue>, key: &str, value: AttrValue)
    ensures
        kvs_model(final(kvs)@) == kvs_model(old(kvs)@).push((key@, value@)),
{
    let ghost before = kvs@;
    let p = kv(key, value);
    let ghost pg = p;
    kvs.push(p);
    proof {
        lemma_kvs_model_push(before, pg);
    }
}

fn push_owned(kvs: &mut Vec<KeyValue>, key: String, value: AttrValue)
    ensures
        kvs_model(final(kvs)@) == kvs_model(old(kvs)@).push((key@, value@)),
{
    let ghost before = kvs@;
    let ghost pg = (key, value);
    kvs.push((key, value));
    proof {
        lemma_kvs_model_push(before, pg);
    }
}

/// The timeline name of a node: namespace and name joined by `/`, without
/// leading slashes.
pub open spec fn spec_timeline_name(node_namespace: Seq<char>, node_name: Seq<char>) -> Seq<char> {
    spec_strip_all(node_namespace + seq!['/'] + node_name, '/')
}

/// The metadata attributes of a node's timeline, in a run with the given id.
pub open spec fn spec_timeline_metadata(node_namespace: Seq<char>, node_name: Seq<char>, run_id: Seq<char>) -> Seq<
    KvModel,
> {
    seq![
        ("timeline.name"@, s_attr(spec_timeline_name(node_namespace, node_name))),
        ("timeline.ros.node.name"@, s_attr(node_name)),
        ("timeline.ros.node.namespace"@, s_attr(node_namespace)),
        ("timeline.ros.node"@, s_attr(node_namespace + seq!['/'] + node_name)),
        ("timeline.run_id"@, s_attr(run_id)),
    ]
}

/// The metadata attributes of a node's timeline, in a run with the given id.
pub fn timeline_metadata_attrs(node_namespace: &str, node_name: &str, run_id: &str) -> (r: Vec<KeyValue>)
    ensures
        kvs_model(r@) == spec_timeline_metadata(node_namespace@, node_name@, run_id@),
{
    let with_slash = concatenate(node_namespace, "/");
    let full = concatenate(with_slash.as_str(), node_name);
    proof {
        reveal_strlit("/");
        assert("/"@ =~= seq!['/']);
    }
    let timeline_name = strip_all_leading(full.as_str(), '/');
    let mut kvs: Vec<KeyValue> = Vec::new();
    push_kv(&mut kvs, "timeline.name", AttrValue::String(timeline_name));
    push_kv(&mut kvs, "timeline.ros.node.name", AttrValue::String(to_owned_string(node_name)));
    push_kv(&mut kvs, "timeline.ros.node.namespace", AttrValue::String(to_owned_string(node_namespace)));
    push_kv(&mut kvs, "timeline.ros.node", AttrValue::String(full));
    push_kv(&mut kvs, "timeline.run_id", AttrValue::String(to_owned_string(run_id)));
    assert(kvs_model(kvs@) =~= spec_timeline_metadata(node_namespace@, node_name@, run_id@));
    kvs
}

pub open spec fn opt_gid_attr(key: Seq<char>, gid: Option<PublisherGraphId>) -> Seq<KvModel> {
    match gid {
        Some(g) => seq![(key, s_attr(spec_hex(g.0@)))],
        None => Seq::empty(),
    }
}

/// The attributes of an event at the RMW layer.
pub open spec fn spec_rmw_event_attrs(e: RmwEvent) -> Seq<KvModel> {
    let ts = match e.spec_timestamp() {
        Some(t) => seq![("event.timestamp"@, AttrModel::Timestamp(t))],
        None => Seq::empty(),
    };
    ts + match e {
        RmwEvent::CreateNode { node_namespace, node_name, .. } => seq![
            ("event.name"@, s_attr("rmw.create_node"@)),
            ("event.ros.node.namespace"@, s_attr(node_namespace@)),
            ("event.ros.node.name"@, s_attr(node_name@)),
        ],
        RmwEvent::DestroyNode { .. } => seq![("event.name"@, s_attr("rmw.destroy_node"@))],
        RmwEvent::CreatePublisher { gid, topic, schema_namespace, schema_name, pub_count, .. } => seq![
            ("event.name"@, s_attr("rmw.create_publisher"@)),
            ("event.internal.publisher.count"@, AttrModel::Integer(pub_count as i64)),
        ] + opt_gid_attr("event.ros.publisher_gid"@, gid) + seq![
            ("event.ros.topic"@, s_attr(topic@)),
            ("event.ros.schema.namespace"@, s_attr(schema_namespace@)),
            ("event.ros.schema.name"@, s_attr(schema_name@)),
        ],
        RmwEvent::DestroyPublisher { gid, .. } => seq![
            ("event.name"@, s_attr("rmw.destroy_publisher"@)),
        ] + opt_gid_attr("event.ros.publisher_gid"@, gid),
        RmwEvent::CreateSubscription { topic, schema_namespace, schema_name, .. } => seq![
            ("event.name"@, s_attr("rmw.create_subscription"@)),
            ("event.ros.topic"@, s_attr(topic@)),
            ("event.ros.schema.namespace"@, s_attr(schema_namespace@)),
            ("event.ros.schema.name"@, s_attr(schema_name@)),
        ],
        RmwEvent::DestroySubscription { topic, .. } => seq![
            ("event.name"@, s_attr("rmw.destroy_subscription"@)),
            ("event.ros.topic"@, s_attr(topic@)),
        ],
        RmwEvent::CreateService { service_name, schema_namespace, schema_name, .. } => seq![
            ("event.name"@, s_attr("rmw.create_service"@)),
            ("event.ros.service.name"@, s_attr(service_name@)),
            ("event.ros.schema.namespace"@, s_attr(schema_namespace@)),
            ("event.ros.schema.name"@, s_attr(schema_name@)),
        ],
        RmwEvent::DestroyService { service_name, .. } => seq![
            ("event.name"@, s_attr("rmw.destroy_service"@)),
            ("event.ros.service.name"@, s_attr(service_name@)),
        ],
        RmwEvent::CreateClient { service_name, schema_namespace, schema_name, .. } => seq![
            ("event.name"@, s_attr("rmw.create_client"@)),
            ("event.ros.service.name"@, s_attr(service_name@)),
            ("event.ros.schema.namespace"@, s_attr(schema_namespace@)),
            ("event.ros.schema.name"@, s_attr(schema_name@)),
        ],
        RmwEvent::DestroyClient { service_name, .. } => seq![
            ("event.name"@, s_attr("rmw.destroy_client"@)),
            ("event.ros.service.name"@, s_attr(service_name@)),
        ],
    }
}

fn push_opt_gid(kvs: &mut Vec<KeyValue>, key: &str, gid: &Option<PublisherGraphId>)
    ensures
        kvs_model(final(kvs)@) == kvs_model(old(kvs)@) + opt_gid_attr(key@, *gid),
{
    let ghost start = kvs_model(kvs@);
    match gid {
        Some(g) => {
            push_kv(kvs, key, AttrValue::String(g.to_hex_string()));
        },
        None => {},
    }
    assert(kvs_model(kvs@) =~= start + opt_gid_attr(key@, *gid));
}

/// The attributes of an event at the RMW layer: its timestamp, when known,
/// its name (`rmw.create_node` and so on) and what it concerns.
pub fn rmw_event_attrs(event: &RmwEvent) -> (r: Vec<KeyValue>)
    ensures
        kvs_model(r@) == spec_rmw_event_attrs(*event),
{
    let mut kvs: Vec<KeyValue> = Vec::new();
    if let Some(ts) = event.timestamp() {
        push_kv(&mut kvs, "event.timestamp", AttrValue::Timestamp(*ts));
    }
    let ghost head = kvs_model(kvs@);
    match event {
        RmwEvent::CreateNode { node_namespace, node_name, .. } => {
            push_kv(&mut kvs, "event.name", AttrValue::String(to_owned_string("rmw.create_node")));
            push_kv(&mut kvs, "event.ros.node.namespace", AttrValue::String(node_namespace.clone()));
            push_kv(&mut kvs, "event.ros.node.name", AttrValue::String(node_name.clone()));
        },
        RmwEvent::DestroyNode { .. } => {
            push_kv(&mut kvs, "event.name", AttrValue::String(to_owned_string("rmw.destroy_node")));
        },
        RmwEvent::CreatePublisher { gid, topic, schema_namespace, schema_name, pub_count, .. } => {
            push_kv(&mut kvs, "event.name", AttrValue::String(to_owned_string("rmw.create_publisher")));
            push_kv(&mut kvs, "event.internal.publisher.count", AttrValue::Integer(*pub_count as i64));
            push_opt_gid(&mut kvs, "event.ros.publisher_gid", gid);
            push_kv(&mut kvs, "event.ros.topic", AttrValue::String(topic.clone()));
            push_kv(&mut kvs, "event.ros.schema.namespace", AttrValue::String(schema_namespace.clone()));
            push_kv(&mut kvs, "event.ros.schema.name", AttrValue::String(schema_name.clone()));
        },
        RmwEvent::DestroyPublisher { gid, .. } => {
            push_kv(&mut kvs, "event.name", AttrValue::String(to_owned_string("rmw.destroy_publisher")));
            push_opt_gid(&mut kvs, "event.ros.publisher_gid", gid);
        },
        RmwEvent::CreateSubscription { topic, schema_namespace, schema_name, .. } => {
            push_kv(&mut kvs, "event.name", AttrValue::String(to_owned_string("rmw.create_subscription")));
            push_kv(&mut kvs, "event.ros.topic", AttrValue::String(topic.clone()));
            push_kv(&mut kvs, "event.ros.schema.namespace", AttrValue::String(schema_namespace.clone()));
            push_kv(&mut kvs, "event.ros.schema.name", AttrValue::String(schema_name.clone()));
        },
        RmwEvent::DestroySubscription { topic, .. } => {
            push_kv(&mut kvs, "event.name", AttrValue::String(to_owned_string("rmw.destroy_subscription")));
            push_kv(&mut kvs, "event.ros.topic", AttrValue::String(topic.clone()));
        },
        RmwEvent::CreateService { service_name, schema_namespace, schema_name, .. } => {
            push_kv(&mut kvs, "event.name", AttrValue::String(to_owned_string("rmw.create_service")));
            push_kv(&mut kvs, "event.ros.service.name", AttrValue::String(service_name.clone()));
            push_kv(&mut kvs, "event.ros.schema.namespace", AttrValue::String(schema_namespace.clone()));
            push_kv(&mut kvs, "event.ros.schema.name", AttrValue::String(schema_name.clone()));
        },
        RmwEvent::DestroyService { service_name, .. } => {
            push_kv(&mut kvs, "event.name", AttrValue::String(to_owned_string("rmw.destroy_service")));
            push_kv(&mut kvs, "event.ros.service.name", AttrValue::String(service_name.clone()));
        },
        RmwEvent::CreateClient { service_name, schema_namespace, schema_name, .. } => {
            push_kv(&mut kvs, "event.name", AttrValue::String(to_owned_string("rmw.create_client")));
            push_kv(&mut kvs, "event.ros.service.name", AttrValue::String(service_name.clone()));
            push_kv(&mut kvs, "event.ros.schema.namespace", AttrValue::String(schema_namespace.clone()));
            push_kv(&mut kvs, "event.ros.schema.name", AttrValue::String(schema_name.clone()));
        },
        RmwEvent::DestroyClient { service_name, .. } => {
            push_kv(&mut kvs, "event.name", AttrValue::String(to_owned_string("rmw.destroy_client")));
            push_kv(&mut kvs, "event.ros.service.name", AttrValue::String(service_name.clone()));
        },
    }
    assert(kvs_model(kvs@) =~= spec_rmw_event_attrs(*event));
    kvs
}

/// `k`, under `event.` unless it already is.
pub open spec fn spec_event_key(k: Seq<char>) -> Seq<char> {
    if k.len() >= 6 && k.take(6) == "event."@ {
        k
    } else {
        "event."@ + k
    }
}

/// The payload attributes as event attributes.
pub open spec fn spec_payload_attrs(kvs: Seq<KvModel>) -> Seq<KvModel> {
    kvs.map_values(|kv: KvModel| (spec_event_key(kv.0), kv.1))
}

/// Whether the payload names the event itself.
pub open spec fn spec_has_event_name(kvs: Seq<KvModel>) -> bool {
    exists|i: int| 0 <= i < kvs.len() && (#[trigger] kvs[i].0 == "event.name"@ || kvs[i].0 == "name"@)
}

pub open spec fn opt_timestamp_attr(key: Seq<char>, t: Option<u64>) -> Seq<KvModel> {
    match t {
        Some(n) => seq![(key, AttrModel::Timestamp(n))],
        None => Seq::empty(),
    }
}

/// The event time of a received message: the receive time, unless unknown
/// or zero (some middlewares always leave it zero), else the time now.
pub open spec fn spec_receive_timestamp(receive_time: Option<CapturedTime>, now: Option<u64>) -> Option<u64> {
    match receive_time {
        Some(ct) => match ct.spec_epoch_nanos() {
            Some(t) => if t != 0 {
                Some(t)
            } else {
                now
            },
            None => now,
        },
        None => now,
    }
}

/// The attributes of a captured message's event.
pub open spec fn spec_message_event_attrs(m: CapturedMessageWithTime, now: Option<u64>) -> Seq<KvModel> {
    let topic = m.msg.topic_name@;
    let payload = kvs_model(m.msg.kvs@);
    let head = seq![("event.ros.topic"@, s_attr(topic))] + if spec_has_event_name(payload) {
        Seq::empty()
    } else {
        seq![("event.name"@, s_attr(spec_strip_one(topic, '/')))]
    };
    let direction = match m.msg.direction {
        MessageDirection::Send { .. } => seq![("event.ros.publish"@, AttrModel::Bool(true))]
            + opt_timestamp_attr("event.timestamp"@, m.publish_time.spec_epoch_nanos())
            + match m.publish_time {
            CapturedTime::Compound { sec, nsec } => seq![
                ("event.dds_time.sec"@, AttrModel::Integer(sec)),
                ("event.dds_time.nanosec"@, AttrModel::Integer(nsec)),
            ],
            CapturedTime::SignedEpochNanos(_) => Seq::empty(),
        },
        MessageDirection::Receive { remote_publisher_graph_id } => seq![
            ("event.ros.received"@, AttrModel::Bool(true)),
        ] + opt_timestamp_attr(
            "event.interaction.remote_event.timestamp"@,
            m.publish_time.spec_epoch_nanos(),
        ) + match remote_publisher_graph_id {
            Some(g) => seq![
                (
                    "event.interaction.remote_timeline.ros.publisher_gid."@ + spec_hex(g.0@),
                    AttrModel::Bool(true),
                ),
            ],
            None => Seq::empty(),
        } + opt_timestamp_attr("event.timestamp"@, spec_receive_timestamp(m.receive_time, now)),
    };
    head + direction + spec_payload_attrs(payload)
}

/// Whether a captured message can be turned into an event: a published
/// message carries the compound time taken from the transport, and neither
/// time overflows when converted to epoch nanoseconds.
pub open spec fn spec_message_convertible(m: CapturedMessageWithTime) -> bool {
    &&& (m.msg.direction is Send ==> m.publish_time is Compound)
    &&& !m.publish_time.spec_epoch_sum_overflows()
    &&& (m.receive_time matches Some(ct) ==> !ct.spec_epoch_sum_overflows())
}

/// Whether converting the time to epoch nanoseconds would overflow.
pub fn epoch_sum_overflows(t: &CapturedTime) -> (r: bool)
    ensures
        r == t.spec_epoch_sum_overflows(),
{
    match t {
        CapturedTime::Compound { sec, nsec } => {
            if *sec < 0 || *nsec < 0 {
                false
            } else {
                match (*sec as u64).checked_mul(1_000_000_000u64) {
                    Some(scaled) => scaled.checked_add(*nsec as u64).is_none(),
                    None => false,
                }
            }
        },
        CapturedTime::SignedEpochNanos(_) => false,
    }
}

/// Whether a captured message can be turned into an event (see
/// `spec_message_convertible`).
pub fn is_message_convertible(m: &CapturedMessageWithTime) -> (r: bool)
    ensures
        r == spec_message_convertible(*m),
{
    let publish_ok = match m.msg.direction {
        MessageDirection::Send { .. } => match m.publish_time {
            CapturedTime::Compound { .. } => true,
            CapturedTime::SignedEpochNanos(_) => false,
        },
        MessageDirection::Receive { .. } => true,
    };
    let receive_ok = match &m.receive_time {
        Some(ct) => !epoch_sum_overflows(ct),
        None => true,
    };
    publish_ok && !epoch_sum_overflows(&m.publish_time) && receive_ok
}

fn has_event_name(kvs: &Vec<KeyValue>) -> (r: bool)
    ensures
        r == spec_has_event_name(kvs_model(kvs@)),
{
    let ghost m = kvs_model(kvs@);
    let n = kvs.len();
    for i in 0..n
        invariant
            n == kvs@.len(),
            m == kvs_model(kvs@),
            m.len() == n,
            forall|j: int| 0 <= j < i ==> !(#[trigger] m[j].0 == "event.name"@ || m[j].0 == "name"@),
    {
        assert(m[i as int] == (kvs@[i as int].0@, kvs@[i as int].1@));
        if crate::text::str_eq(kvs[i].0.as_str(), "event.name") || crate::text::str_eq(
            kvs[i].0.as_str(),
            "name",
        ) {
            assert(m[i as int].0 == "event.name"@ || m[i as int].0 == "name"@);
            return true;
        }
    }
    false
}

fn event_key(k: String) -> (r: String)
    ensures
        r@ == spec_event_key(k@),
{
    proof {
        reveal_strlit("event.");
    }
    if has_prefix(k.as_str(), "event.") {
        k
    } else {
        concatenate("event.", k.as_str())
    }
}

/// Appends the payload attributes under `event.`.
fn push_payload(kvs: &mut Vec<KeyValue>, payload: Vec<KeyValue>)
    ensures
        kvs_model(final(kvs)@) == kvs_model(old(kvs)@) + spec_payload_attrs(kvs_model(payload@)),
{
    let ghost start = kvs_model(kvs@);
    let ghost pm = kvs_model(payload@);
    let ghost all = payload@;
    let mut rest = payload;
    let n = rest.len();
    let mut i: usize = 0;
    assert(rest@ =~= all.subrange(0, n as int));
    while rest.len() > 0
        invariant
            n == all.len(),
            i + rest@.len() == n,
            rest@ == all.subrange(i as int, n as int),
            pm == kvs_model(all),
            start == kvs_model(old(kvs)@),
            kvs_model(kvs@) == start + spec_payload_attrs(pm.take(i as int)),
        decreases rest@.len(),
    {
        let (k, v) = rest.remove(0);
        proof {
            assert((k, v) == all[i as int]);
            assert(rest@ =~= all.subrange(i + 1, n as int));
            assert(pm[i as int] == (k@, v@));
        }
        let ek = event_key(k);
        push_owned(kvs, ek, v);
        i = i + 1;
        proof {
            assert(spec_payload_attrs(pm.take(i as int)) =~= spec_payload_attrs(pm.take(i - 1)).push(
                (spec_event_key(pm[i - 1].0), pm[i - 1].1),
            ));
        }
    }
    proof {
        assert(pm.take(n as int) =~= pm);
    }
}

fn push_opt_timestamp(kvs: &mut Vec<KeyValue>, key: &str, t: Option<u64>)
    ensures
        kvs_model(final(kvs)@) == kvs_model(old(kvs)@) + opt_timestamp_attr(key@, t),
{
    let ghost start = kvs_model(kvs@);
    if let Some(n) = t {
        push_kv(kvs, key, AttrValue::Timestamp(n));
    }
    assert(kvs_model(kvs@) =~= start + opt_timestamp_attr(key@, t));
}

fn receive_timestamp(receive_time: Option<CapturedTime>, now: Option<u64>) -> (r: Option<u64>)
    requires
        receive_time matches Some(ct) ==> !ct.spec_epoch_sum_overflows(),
    ensures
        r == spec_receive_timestamp(receive_time, now),
{
    match receive_time {
        Some(ct) => match ct.to_epoch_nanos() {
            Some(t) => if t != 0 {
                Some(t)
            } else {
                now
            },
            None => now,
        },
        None => now,
    }
}

/// The attributes of the event for a captured message. `now` is the time
/// used for a received message whose receive time is unknown.
pub fn message_event_attrs(captured_message: CapturedMessageWithTime, now: Option<u64>) -> (r: Vec<
    KeyValue,
>)
    requires
        spec_message_convertible(captured_message),
    ensures
        kvs_model(r@) == spec_message_event_attrs(captured_message, now),
{
    let ghost m = captured_message;
    let topic = captured_message.msg.topic_name;
    let mut kvs: Vec<KeyValue> = Vec::new();
    push_kv(&mut kvs, "event.ros.topic", AttrValue::String(topic.clone()));
    if !has_event_name(&captured_message.msg.kvs) {
        // If there's no incoming event name, use the topic name without its leading '/'
        let event_name = strip_one_leading(topic.as_str(), '/');
        push_kv(&mut kvs, "event.name", AttrValue::String(event_name));
    }
    let ghost after_head = kvs_model(kvs@);
    match captured_message.msg.direction {
        MessageDirection::Send { .. } => {
            push_kv(&mut kvs, "event.ros.publish", AttrValue::Bool(true));
            push_opt_timestamp(&mut kvs, "event.timestamp", captured_message.publish_time.to_epoch_nanos());
            match captured_message.publish_time {
                CapturedTime::Compound { sec, nsec } => {
                    push_kv(&mut kvs, "event.dds_time.sec", AttrValue::Integer(sec));
                    push_kv(&mut kvs, "event.dds_time.nanosec", AttrValue::Integer(nsec));
                },
                CapturedTime::SignedEpochNanos(_) => {},
            }
        },
        MessageDirection::Receive { remote_publisher_graph_id } => {
            push_kv(&mut kvs, "event.ros.received", AttrValue::Bool(true));
            push_opt_timestamp(
                &mut kvs,
                "event.interaction.remote_event.timestamp",
                captured_message.publish_time.to_epoch_nanos(),
            );
            if let Some(g) = remote_publisher_graph_id {
                let key = concatenate("event.interaction.remote_timeline.ros.publisher_gid.", g.to_hex_string().as_str());
                push_owned(&mut kvs, key, AttrValue::Bool(true));
            }
            push_opt_timestamp(
                &mut kvs,
                "event.timestamp",
                receive_timestamp(captured_message.receive_time, now),
            );
        },
    }
    let ghost after_direction = kvs_model(kvs@);
    push_payload(&mut kvs, captured_message.msg.kvs);
    assert(kvs_model(kvs@) =~= spec_message_event_attrs(m, now));
    kvs
}

/// The timeline metadata announcing that this timeline publishes with `gid`.
pub open spec fn spec_publisher_metadata(gid: PublisherGraphId) -> Seq<KvModel> {
    seq![("timeline.ros.publisher_gid."@ + spec_hex(gid.0@), AttrModel::Bool(true))]
}

/// The timeline metadata announcing that this timeline publishes with `gid`.
pub fn publisher_metadata_attrs(gid: &PublisherGraphId) -> (r: Vec<KeyValue>)
    ensures
        kvs_model(r@) == spec_publisher_metadata(*gid),
{
    let mut kvs: Vec<KeyValue> = Vec::new();
    let key = concatenate("timeline.ros.publisher_gid.", gid.to_hex_string().as_str());
    push_owned(&mut kvs, key, AttrValue::Bool(true));
    assert(kvs_model(kvs@) =~= spec_publisher_metadata(*gid));
    kvs
}

/// The event name of a service: its name without leading slashes, with the
/// remaining slashes replaced by dots (`/waypoint/create` gives
/// `waypoint.create`).
pub open spec fn spec_service_event_name(service_name: Seq<char>) -> Seq<char> {
    spec_replace_char(spec_strip_all(service_name, '/'), '/', '.')
}

/// The attribute that connects a service's taking of a request to the
/// client that sent it, whose timeline carries the client's guid.
pub open spec fn spec_remote_client_attr(e: ServiceEvent) -> Seq<KvModel> {
    if e.event_type == ServiceEventType::TakeRequest {
        seq![
            (
                "event.interaction.remote_timeline.ros.service.client_guid."@ + spec_hex(e.client_guid@),
                AttrModel::Bool(true),
            ),
        ]
    } else {
        Seq::empty()
    }
}

/// The attributes of a service interaction step's event.
pub open spec fn spec_service_event_attrs(e: ServiceEvent) -> Seq<KvModel> {
    seq![
        ("event.name"@, s_attr(spec_service_event_name(e.service_name@))),
        ("event.ros.service.name"@, s_attr(e.service_name@)),
        ("event.ros.service.event"@, s_attr(e.event_type.spec_text())),
    ] + opt_timestamp_attr("event.timestamp"@, e.timestamp) + spec_remote_client_attr(e) + spec_payload_attrs(
        kvs_model(e.kvs@),
    )
}

/// The event name of a service.
pub fn service_event_name(service_name: &str) -> (r: String)
    ensures
        r@ == spec_service_event_name(service_name@),
{
    let stripped = strip_all_leading(service_name, '/');
    replace_char(stripped.as_str(), '/', '.')
}

/// The attributes of the event for a step of a service interaction.
pub fn service_event_attrs(event: ServiceEvent) -> (r: Vec<KeyValue>)
    ensures
        kvs_model(r@) == spec_service_event_attrs(event),
{
    let ghost e = event;
    let mut kvs: Vec<KeyValue> = Vec::new();
    push_kv(&mut kvs, "event.name", AttrValue::String(service_event_name(event.service_name.as_str())));
    push_kv(&mut kvs, "event.ros.service.name", AttrValue::String(event.service_name.clone()));
    push_kv(&mut kvs, "event.ros.service.event", AttrValue::String(event.event_type.to_text()));
    push_opt_timestamp(&mut kvs, "event.timestamp", event.timestamp);
    let ghost before_remote = kvs_model(kvs@);
    if event.event_type == ServiceEventType::TakeRequest {
        let key = concatenate(
            "event.interaction.remote_timeline.ros.service.client_guid.",
            bytes_to_hex(event.client_guid.as_slice()).as_str(),
        );
        push_owned(&mut kvs, key, AttrValue::Bool(true));
    }
    assert(kvs_model(kvs@) =~= before_remote + spec_remote_client_attr(e));
    push_payload(&mut kvs, event.kvs);
    assert(kvs_model(kvs@) =~= spec_service_event_attrs(e));
    kvs
}

/// Whether a step is observed on the client's side of the interaction.
pub open spec fn spec_is_client_side(t: ServiceEventType) -> bool {
    t == ServiceEventType::SendRequest || t == ServiceEventType::TakeResponse
}

pub fn is_client_side(t: ServiceEventType) -> (r: bool)
    ensures
        r == spec_is_client_side(t),
{
    match t {
        ServiceEventType::SendRequest => true,
        ServiceEventType::TakeResponse => true,
        _ => false,
    }
}

/// The timeline metadata announcing that this timeline has the service
/// client `guid`.
pub open spec fn spec_client_metadata(guid: [u8; 16]) -> Seq<KvModel> {
    seq![("timeline.ros.service.client_guid."@ + spec_hex(guid@), AttrModel::Bool(true))]
}

/// The timeline metadata announcing that this timeline has the service
/// client `guid`.
pub fn client_metadata_attrs(guid: &[u8; 16]) -> (r: Vec<KeyValue>)
    ensures
        kvs_model(r@) == spec_client_metadata(*guid),
{
    let mut kvs: Vec<KeyValue> = Vec::new();
    let key = concatenate("timeline.ros.service.client_guid.", bytes_to_hex(guid.as_slice()).as_str());
    push_owned(&mut kvs, key, AttrValue::Bool(true));
    assert(kvs_model(kvs@) =~= spec_client_metadata(*guid));
    kvs
}

// ---------------------------------------------------------------------
// What an event sends
// ---------------------------------------------------------------------

/// What the processor sends for one event once the event's timeline is
/// open: timeline metadata (one call per entry, in order), then the event.
pub struct EventPlan {
    pub timeline_metadata: Vec<Vec<KeyValue>>,
    pub event: Vec<KeyValue>,
}

/// The models of a list of attribute lists.
pub open spec fn kv_lists_model(v: Seq<Vec<KeyValue>>) -> Seq<Seq<KvModel>> {
    v.map_values(|kvs: Vec<KeyValue>| kvs_model(kvs@))
}

/// A timeline's metadata, when the timeline has not been described yet.
pub open spec fn spec_new_timeline_metadata(
    created: Set<TimelineId>,
    t: TimelineId,
    node_namespace: Seq<char>,
    node_name: Seq<char>,
    run_id: Seq<char>,
) -> Seq<Seq<KvModel>> {
    if created.contains(t) {
        Seq::empty()
    } else {
        seq![spec_timeline_metadata(node_namespace, node_name, run_id)]
    }
}

/// The publisher metadata of a message published with a known gid, when
/// that publisher has not been described on its timeline yet.
pub open spec fn spec_new_publisher_metadata(
    described: Set<(TimelineId, PublisherGraphId)>,
    t: TimelineId,
    direction: MessageDirection,
) -> Seq<Seq<KvModel>> {
    match direction {
        MessageDirection::Send { local_publisher_graph_id: Some(gid) } => if described.contains((t, gid)) {
            Seq::empty()
        } else {
            seq![spec_publisher_metadata(gid)]
        },
        _ => Seq::empty(),
    }
}

/// The publishers described once a message has been planned.
pub open spec fn spec_publishers_after(
    described: Set<(TimelineId, PublisherGraphId)>,
    t: TimelineId,
    direction: MessageDirection,
) -> Set<(TimelineId, PublisherGraphId)> {
    match direction {
        MessageDirection::Send { local_publisher_graph_id: Some(gid) } => described.insert((t, gid)),
        _ => described,
    }
}

/// The client metadata of a client-side service step, when that client has
/// not been described on its timeline yet.
pub open spec fn spec_new_client_metadata(described: Set<(TimelineId, [u8; 16])>, e: ServiceEvent) -> Seq<
    Seq<KvModel>,
> {
    if spec_is_client_side(e.event_type) && !described.contains((e.timeline_id, e.client_guid)) {
        seq![spec_client_metadata(e.client_guid)]
    } else {
        Seq::empty()
    }
}

/// The clients described once a service step has been planned.
pub open spec fn spec_clients_after(described: Set<(TimelineId, [u8; 16])>, e: ServiceEvent) -> Set<
    (TimelineId, [u8; 16]),
> {
    if spec_is_client_side(e.event_type) {
        described.insert((e.timeline_id, e.client_guid))
    } else {
        described
    }
}

fn push_list(lists: &mut Vec<Vec<KeyValue>>, kvs: Vec<KeyValue>)
    ensures
        kv_lists_model(final(lists)@) == kv_lists_model(old(lists)@).push(kvs_model(kvs@)),
{
    let ghost before = lists@;
    let ghost k = kvs;
    lists.push(kvs);
    assert(kv_lists_model(lists@) =~= kv_lists_model(before).push(kvs_model(k@)));
}

impl ProcessorState {
    fn describe_timeline(
        &mut self,
        t: TimelineId,
        node_namespace: &str,
        node_name: &str,
        run_id: &str,
        lists: &mut Vec<Vec<KeyValue>>,
    )
        ensures
            kv_lists_model(final(lists)@) == kv_lists_model(old(lists)@) + spec_new_timeline_metadata(
                old(self).created(),
                t,
                node_namespace@,
                node_name@,
                run_id@,
            ),
            final(self).created() == old(self).created().insert(t),
            final(self).publishers_described() == old(self).publishers_described(),
            final(self).clients_described() == old(self).clients_described(),
            final(self).open_timeline() == old(self).open_timeline(),
            final(self).next_ordering() == old(self).next_ordering(),
    {
        let ghost start = kv_lists_model(lists@);
        if self.note_timeline_created(t) {
            push_list(lists, timeline_metadata_attrs(node_namespace, node_name, run_id));
        }
        assert(kv_lists_model(lists@) =~= start + spec_new_timeline_metadata(
            old(self).created(),
            t,
            node_namespace@,
            node_name@,
            run_id@,
        ));
    }

    /// What an RMW event sends, its timeline being open: a node's creation
    /// first describes the node's timeline, if it was not described yet.
    pub fn plan_rmw_event(&mut self, event: &RmwEvent, run_id: &str) -> (r: EventPlan)
        ensures
            kv_lists_model(r.timeline_metadata@) == (match *event {
                RmwEvent::CreateNode { node_namespace, node_name, node_timeline_id, .. } => spec_new_timeline_metadata(
                    old(self).created(),
                    node_timeline_id,
                    node_namespace@,
                    node_name@,
                    run_id@,
                ),
                _ => Seq::empty(),
            }),
            final(self).created() == (match *event {
                RmwEvent::CreateNode { node_timeline_id, .. } => old(self).created().insert(node_timeline_id),
                _ => old(self).created(),
            }),
            final(self).publishers_described() == old(self).publishers_described(),
            final(self).clients_described() == old(self).clients_described(),
            final(self).open_timeline() == old(self).open_timeline(),
            final(self).next_ordering() == old(self).next_ordering(),
            kvs_model(r.event@) == spec_rmw_event_attrs(*event),
    {
        let mut lists: Vec<Vec<KeyValue>> = Vec::new();
        proof {
            assert(kv_lists_model(lists@) =~= Seq::<Seq<KvModel>>::empty());
        }
        if let RmwEvent::CreateNode { node_namespace, node_name, node_timeline_id, .. } = event {
            self.describe_timeline(*node_timeline_id, node_namespace.as_str(), node_name.as_str(), run_id, &mut lists);
        }
        EventPlan { timeline_metadata: lists, event: rmw_event_attrs(event) }
    }

    /// What a captured message sends, its node's timeline being open: the
    /// timeline's metadata if it was not described yet, then for a message
    /// published with a known gid that publisher's metadata if it was not
    /// described on the timeline yet. `now` is the time used for a received
    /// message whose receive time is unknown.
    pub fn plan_message(&mut self, captured_message: CapturedMessageWithTime, now: Option<u64>, run_id: &str) -> (r:
        EventPlan)
        requires
            spec_message_convertible(captured_message),
        ensures
            kv_lists_model(r.timeline_metadata@) == spec_new_timeline_metadata(
                old(self).created(),
                captured_message.msg.node_timeline_id,
                captured_message.msg.node_namespace@,
                captured_message.msg.node_name@,
                run_id@,
            ) + spec_new_publisher_metadata(
                old(self).publishers_described(),
                captured_message.msg.node_timeline_id,
                captured_message.msg.direction,
            ),
            final(self).created() == old(self).created().insert(captured_message.msg.node_timeline_id),
            final(self).publishers_described() == spec_publishers_after(
                old(self).publishers_described(),
                captured_message.msg.node_timeline_id,
                captured_message.msg.direction,
            ),
            final(self).clients_described() == old(self).clients_described(),
            final(self).open_timeline() == old(self).open_timeline(),
            final(self).next_ordering() == old(self).next_ordering(),
            kvs_model(r.event@) == spec_message_event_attrs(captured_message, now),
    {
        let ghost m = captured_message;
        let t = captured_message.msg.node_timeline_id;
        let mut lists: Vec<Vec<KeyValue>> = Vec::new();
        proof {
            assert(kv_lists_model(lists@) =~= Seq::<Seq<KvModel>>::empty());
        }
        self.describe_timeline(
            t,
            captured_message.msg.node_namespace.as_str(),
            captured_message.msg.node_name.as_str(),
            run_id,
            &mut lists,
        );
        let ghost after_timeline = kv_lists_model(lists@);
        if let MessageDirection::Send { local_publisher_graph_id: Some(gid) } = captured_message.msg.direction {
            if self.note_publisher_described(t, gid) {
                push_list(&mut lists, publisher_metadata_attrs(&gid));
            }
        }
        assert(kv_lists_model(lists@) =~= after_timeline + spec_new_publisher_metadata(
            old(self).publishers_described(),
            t,
            m.msg.direction,
        ));
        EventPlan { timeline_metadata: lists, event: message_event_attrs(captured_message, now) }
    }

    /// What a step of a service interaction sends, its timeline being open:
    /// for a client-side step, the client's metadata if the client was not
    /// described on the timeline yet.
    pub fn plan_service_event(&mut self, service_event: ServiceEvent) -> (r: EventPlan)
        ensures
            kv_lists_model(r.timeline_metadata@) == spec_new_client_metadata(
                old(self).clients_described(),
                service_event,
            ),
            final(self).clients_described() == spec_clients_after(old(self).clients_described(), service_event),
            final(self).created() == old(self).created(),
            final(self).publishers_described() == old(self).publishers_described(),
            final(self).open_timeline() == old(self).open_timeline(),
            final(self).next_ordering() == old(self).next_ordering(),
            kvs_model(r.event@) == spec_service_event_attrs(service_event),
    {
        let mut lists: Vec<Vec<KeyValue>> = Vec::new();
        proof {
            assert(kv_lists_model(lists@) =~= Seq::<Seq<KvModel>>::empty());
        }
        if is_client_side(service_event.event_type) {
            if self.note_client_described(service_event.timeline_id, service_event.client_guid) {
                push_list(&mut lists, client_metadata_attrs(&service_event.client_guid));
            }
        }
        proof {
            assert(kv_lists_model(lists@) =~= spec_new_client_metadata(
                old(self).clients_described(),
                service_event,
            ));
        }
        EventPlan { timeline_metadata: lists, event: service_event_attrs(service_event) }
    }
}

} // verus!
