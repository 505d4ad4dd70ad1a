//! What the rmw hooks decide: the state kept for each node, publisher,
//! subscription, service and client, and the events each hook emits.
//!
//! The hooks themselves are foreign functions that read middleware memory
//! and keep the registries; they hand what they read to the functions here.
use vstd::prelude::*;
use crate::attr::{KeyValue, KvModel, kvs_model};
use crate::config::ModalityRosHookConfig;
use crate::events::{
    CapturedMessage, CapturedMessageWithTime, CapturedTime, MessageDirection, PublisherGraphId,
    RmwEvent, ServiceEvent, ServiceEventType, TimelineId, allocate_timeline_id, is_random_uuid, now,
};
use crate::interpret::{MessageImage, events_model, spec_compound_message, spec_single_message};
use crate::introspection::RosServiceSchema;
use crate::scalar::Platform;
use crate::schema::{FlatRosMessageSchema, RosMessageSchema, spec_flatten_schema, spec_flattenable_schema};
use crate::text::{spec_trim, spec_utf8_lossy, string_views, trim, utf8_lossy};

verus! {

/// What is kept of a node: its names and the timeline its events go on.
#[derive(Debug, Clone)]
pub struct NodeState {
    pub namespace: String,
    pub name: String,
    /// This node's timeline id. It distinguishes this node from a similarly
    /// named one, alive at the same time or created after this one.
    pub timeline_id: TimelineId,
}

/// What is kept of a publisher.
#[derive(Debug)]
pub struct PublisherState {
    pub message_schema: FlatRosMessageSchema,
    pub topic_name: String,
    pub node_namespace: String,
    pub node_name: String,
    pub node_timeline_id: TimelineId,
    pub graph_id: Option<PublisherGraphId>,
}

/// What is kept of a subscription.
#[derive(Debug)]
pub struct SubscriptionState {
    pub message_schema: FlatRosMessageSchema,
    pub topic_name: String,
    pub node_namespace: String,
    pub node_name: String,
    pub node_timeline_id: TimelineId,
}

/// What is kept of a service server.
#[derive(Debug)]
pub struct ServiceState {
    pub schema: RosServiceSchema,
    pub node_timeline_id: TimelineId,
    pub service_name: String,
}

/// What is kept of a service client.
#[derive(Debug)]
pub struct ClientState {
    pub schema: RosServiceSchema,
    pub node_timeline_id: TimelineId,
    pub service_name: String,
}

// ---------------------------------------------------------------------
// Nodes
// ---------------------------------------------------------------------

/// A node was created: its state (names decoded from the C strings) and
/// the `CreateNode` event.
pub fn node_created(name: &[u8], namespace: &[u8], node_timeline_id: TimelineId) -> (r: (
    NodeState,
    RmwEvent,
))
    ensures
        r.0.name@ == spec_utf8_lossy(name@),
        r.0.namespace@ == spec_utf8_lossy(namespace@),
        r.0.timeline_id == node_timeline_id,
        r.1 matches RmwEvent::CreateNode { node_namespace, node_name, node_timeline_id: t, .. } && node_name@
            == spec_utf8_lossy(name@) && node_namespace@ == spec_utf8_lossy(namespace@) && t
            == node_timeline_id,
{
    let node_name = utf8_lossy(name);
    let node_namespace = utf8_lossy(namespace);
    let state = NodeState {
        name: node_name.clone(),
        namespace: node_namespace.clone(),
        timeline_id: node_timeline_id,
    };
    (state, RmwEvent::create_node(node_namespace, node_name, node_timeline_id))
}

/// A node was created: as `node_created`, on a newly allocated timeline.
pub fn node_created_on_new_timeline(name: &[u8], namespace: &[u8]) -> (r: (NodeState, RmwEvent))
    ensures
        r.0.name@ == spec_utf8_lossy(name@),
        r.0.namespace@ == spec_utf8_lossy(namespace@),
        is_random_uuid(r.0.timeline_id.0),
        r.1 matches RmwEvent::CreateNode { node_namespace, node_name, node_timeline_id: t, .. } && node_name@
            == spec_utf8_lossy(name@) && node_namespace@ == spec_utf8_lossy(namespace@) && t
            == r.0.timeline_id,
{
    let node_timeline_id = allocate_timeline_id();
    node_created(name, namespace, node_timeline_id)
}

/// A node was destroyed: a `DestroyNode` event when the node was known.
pub fn node_destroyed(node: Option<&NodeState>) -> (r: Option<RmwEvent>)
    ensures
        r is Some <==> node is Some,
        r matches Some(e) ==> e matches RmwEvent::DestroyNode { node_timeline_id, .. } && node_timeline_id
            == node.unwrap().timeline_id,
{
    match node {
        Some(n) => Some(RmwEvent::destroy_node(n.timeline_id)),
        None => None,
    }
}

// ---------------------------------------------------------------------
// Publishers and subscriptions
// ---------------------------------------------------------------------

/// A topic name as the hooks use it: the C string decoded and trimmed.
pub open spec fn spec_topic_name(bytes: Seq<u8>) -> Seq<char> {
    spec_trim(spec_utf8_lossy(bytes))
}

/// The topic (or service) name that a C string holds: decoded and trimmed.
pub fn topic_name(bytes: &[u8]) -> (r: String)
    ensures
        r@ == spec_topic_name(bytes@),
{
    let decoded = utf8_lossy(bytes);
    trim(decoded.as_str())
}

/// A publisher was created on `node`. Nothing is recorded when its topic
/// is ignored or its message type could not be described; otherwise its
/// state (with the flattened schema) and the `CreatePublisher` event, which
/// carries `publisher_count`, the number of publishers with this one.
pub fn publisher_created(
    node: &NodeState,
    topic_name: &[u8],
    config: &ModalityRosHookConfig,
    schema: Option<RosMessageSchema>,
    graph_id: Option<PublisherGraphId>,
    publisher_count: usize,
) -> (r: Option<(PublisherState, RmwEvent)>)
    requires
        schema matches Some(s) ==> spec_flattenable_schema(s),
    ensures
        r is Some <==> (!string_views(config.ignored_topics@).contains(spec_topic_name(topic_name@))
            && schema is Some),
        r matches Some((st, e)) ==> {
            &&& st.topic_name@ == spec_topic_name(topic_name@)
            &&& st.message_schema@ == spec_flatten_schema(schema.unwrap(), Seq::empty())
            &&& st.node_namespace@ == node.namespace@
            &&& st.node_name@ == node.name@
            &&& st.node_timeline_id == node.timeline_id
            &&& st.graph_id == graph_id
            &&& e matches RmwEvent::CreatePublisher {
                node_timeline_id,
                gid,
                topic,
                schema_namespace,
                schema_name,
                pub_count,
                ..
            }
            &&& node_timeline_id == node.timeline_id
            &&& gid == graph_id
            &&& topic@ == spec_topic_name(topic_name@)
            &&& schema_namespace@ == schema.unwrap().namespace@
            &&& schema_name@ == schema.unwrap().name@
            &&& pub_count == publisher_count
        },
{
    let topic = crate::hooks::topic_name(topic_name);
    if config.is_ignored_topic(topic.as_str()) {
        return None;
    }
    match schema {
        Some(s) => {
            let namespace = s.namespace.clone();
            let name = s.name.clone();
            let flat = s.flatten(&Vec::new());
            proof {
                assert(string_views(Seq::<String>::empty()) =~= Seq::<Seq<char>>::empty());
            }
            let state = PublisherState {
                message_schema: flat,
                topic_name: topic.clone(),
                node_namespace: node.namespace.clone(),
                node_name: node.name.clone(),
                node_timeline_id: node.timeline_id,
                graph_id,
            };
            let event = RmwEvent::create_publisher(
                node.timeline_id,
                graph_id,
                topic,
                namespace,
                name,
                publisher_count,
            );
            Some((state, event))
        },
        None => None,
    }
}

/// A publisher was destroyed: a `DestroyPublisher` event when it was known.
pub fn publisher_destroyed(publisher: Option<&PublisherState>) -> (r: Option<RmwEvent>)
    ensures
        r is Some <==> publisher is Some,
        r matches Some(e) ==> e matches RmwEvent::DestroyPublisher { node_timeline_id, gid, .. }
            && node_timeline_id == publisher.unwrap().node_timeline_id && gid
            == publisher.unwrap().graph_id,
{
    match publisher {
        Some(p) => Some(RmwEvent::destroy_publisher(p.node_timeline_id, p.graph_id)),
        None => None,
    }
}

/// A message captured with the given attributes.
pub open spec fn spec_captured(
    c: CapturedMessage,
    kvs: Seq<KvModel>,
    topic: Seq<char>,
    ns: Seq<char>,
    name: Seq<char>,
    tid: TimelineId,
    direction: MessageDirection,
) -> bool {
    &&& kvs_model(c.kvs@) == kvs
    &&& c.topic_name@ == topic
    &&& c.node_namespace@ == ns
    &&& c.node_name@ == name
    &&& c.node_timeline_id == tid
    &&& c.direction == direction
}

impl PublisherState {
    /// The messages captured when this publisher publishes `message`: one
    /// per event the message becomes, each sent from this publisher.
    pub fn capture_published(&self, message: &MessageImage, platform: Platform, max_array_len: usize) -> (r: Vec<
        CapturedMessage,
    >)
        ensures
            r@.len() == spec_compound_message(self.message_schema@, *message, platform, max_array_len).len(),
            forall|i: int|
                0 <= i < r@.len() ==> spec_captured(
                    #[trigger] r@[i],
                    spec_compound_message(self.message_schema@, *message, platform, max_array_len)[i],
                    self.topic_name@,
                    self.node_namespace@,
                    self.node_name@,
                    self.node_timeline_id,
                    MessageDirection::Send { local_publisher_graph_id: self.graph_id },
                ),
    {
        let all = self.message_schema.interpret_potentially_compound_message(message, platform, max_array_len);
        let ghost evs = events_model(all@);
        let ghost full = all@;
        let mut rest = all;
        let mut out: Vec<CapturedMessage> = Vec::new();
        let n = rest.len();
        let mut i: usize = 0;
        assert(rest@ =~= full.subrange(0, n as int));
        while rest.len() > 0
            invariant
                n == full.len(),
                i + rest@.len() == n,
                rest@ == full.subrange(i as int, n as int),
                evs == events_model(full),
                out@.len() == i,
                forall|k: int|
                    0 <= k < i ==> spec_captured(
                        #[trigger] out@[k],
                        evs[k],
                        self.topic_name@,
                        self.node_namespace@,
                        self.node_name@,
                        self.node_timeline_id,
                        MessageDirection::Send { local_publisher_graph_id: self.graph_id },
                    ),
            decreases rest@.len(),
        {
            let kvs = rest.remove(0);
            proof {
                assert(kvs == full[i as int]);
                assert(rest@ =~= full.subrange(i + 1, n as int));
            }
            out.push(
                CapturedMessage {
                    kvs,
                    topic_name: self.topic_name.clone(),
                    node_namespace: self.node_namespace.clone(),
                    node_name: self.node_name.clone(),
                    node_timeline_id: self.node_timeline_id,
                    direction: MessageDirection::Send { local_publisher_graph_id: self.graph_id },
                },
            );
            i = i + 1;
        }
        out
    }
}

/// Whether a `clock_gettime` call is the wall clock read that the transport
/// stamps a published message with (clock id 0).
pub fn is_transport_clock(clock_id: usize) -> (r: bool)
    ensures
        r == (clock_id == 0),
{
    clock_id == 0
}

/// The captured messages, stamped with the publish time the transport
/// read from the clock.
pub fn stamp_published(msgs: Vec<CapturedMessage>, tv_sec: i64, tv_nsec: i64) -> (r: Vec<
    CapturedMessageWithTime,
>)
    ensures
        r@.len() == msgs@.len(),
        forall|i: int|
            0 <= i < r@.len() ==> (#[trigger] r@[i]).msg == msgs@[i] && r@[i].publish_time
                == (CapturedTime::Compound { sec: tv_sec, nsec: tv_nsec }) && (r@[i].receive_time is None),
{
    let ghost all = msgs@;
    let mut rest = msgs;
    let mut out: Vec<CapturedMessageWithTime> = Vec::new();
    let n = rest.len();
    let mut i: usize = 0;
    assert(rest@ =~= all.subrange(0, n as int));
    while rest.len() > 0
        invariant
            n == all.len(),
            i + rest@.len() == n,
            rest@ == all.subrange(i as int, n as int),
            out@.len() == i,
            forall|k: int|
                0 <= k < i ==> (#[trigger] out@[k]).msg == all[k] && out@[k].publish_time
                    == (CapturedTime::Compound { sec: tv_sec, nsec: tv_nsec }) && (out@[k].receive_time is None),
        decreases rest@.len(),
    {
        let msg = rest.remove(0);
        proof {
            assert(msg == all[i as int]);
            assert(rest@ =~= all.subrange(i + 1, n as int));
        }
        out.push(
            CapturedMessageWithTime {
                msg,
                publish_time: CapturedTime::Compound { sec: tv_sec, nsec: tv_nsec },
                receive_time: None,
            },
        );
        i = i + 1;
    }
    out
}

/// A publish on this thread: its captured messages wait for the transport's
/// clock read, in place of any that were waiting.
pub fn hold_published(pending: &mut Option<Vec<CapturedMessage>>, msgs: Vec<CapturedMessage>)
    ensures
        *final(pending) == Some(msgs),
{
    *pending = Some(msgs);
}

/// What waits after a clock read: nothing after the transport clock, the
/// same as before after any other.
pub open spec fn spec_pending_after_clock_read(
    pending: Option<Vec<CapturedMessage>>,
    clock_id: usize,
) -> Option<Vec<CapturedMessage>> {
    if clock_id == 0 {
        None
    } else {
        pending
    }
}

/// The messages a clock read sends: those waiting, when the clock is the
/// transport's.
pub open spec fn spec_sent_on_clock_read(pending: Option<Vec<CapturedMessage>>, clock_id: usize) -> Seq<
    CapturedMessage,
> {
    match pending {
        Some(msgs) => if clock_id == 0 {
            msgs@
        } else {
            Seq::empty()
        },
        None => Seq::empty(),
    }
}

/// A clock read on this thread. On the transport clock the waiting
/// messages go out, stamped with the time read, and none wait any more; on
/// any other clock nothing goes out and what waits stays.
pub fn clock_read(pending: &mut Option<Vec<CapturedMessage>>, clock_id: usize, tv_sec: i64, tv_nsec: i64) -> (r:
    Vec<CapturedMessageWithTime>)
    ensures
        *final(pending) == spec_pending_after_clock_read(*old(pending), clock_id),
        r@.len() == spec_sent_on_clock_read(*old(pending), clock_id).len(),
        forall|i: int|
            0 <= i < r@.len() ==> (#[trigger] r@[i]).msg == spec_sent_on_clock_read(*old(pending), clock_id)[i]
                && r@[i].publish_time == (CapturedTime::Compound { sec: tv_sec, nsec: tv_nsec }) && (
            r@[i].receive_time is None),
{
    if !is_transport_clock(clock_id) {
        return Vec::new();
    }
    match pending.take() {
        Some(msgs) => stamp_published(msgs, tv_sec, tv_nsec),
        None => Vec::new(),
    }
}

/// A subscription was created on `node`. Nothing is recorded when its
/// topic is ignored or its message type could not be described; otherwise
/// its state and the `CreateSubscription` event.
pub fn subscription_created(
    node: &NodeState,
    topic_name: &[u8],
    config: &ModalityRosHookConfig,
    schema: Option<RosMessageSchema>,
) -> (r: Option<(SubscriptionState, RmwEvent)>)
    requires
        schema matches Some(s) ==> spec_flattenable_schema(s),
    ensures
        r is Some <==> (!string_views(config.ignored_topics@).contains(spec_topic_name(topic_name@))
            && schema is Some),
        r matches Some((st, e)) ==> {
            &&& st.topic_name@ == spec_topic_name(topic_name@)
            &&& st.message_schema@ == spec_flatten_schema(schema.unwrap(), Seq::empty())
            &&& st.node_namespace@ == node.namespace@
            &&& st.node_name@ == node.name@
            &&& st.node_timeline_id == node.timeline_id
            &&& e matches RmwEvent::CreateSubscription {
                node_timeline_id,
                topic,
                schema_namespace,
                schema_name,
                ..
            }
            &&& node_timeline_id == node.timeline_id
            &&& topic@ == spec_topic_name(topic_name@)
            &&& schema_namespace@ == schema.unwrap().namespace@
            &&& schema_name@ == schema.unwrap().name@
        },
{
    let topic = crate::hooks::topic_name(topic_name);
    if config.is_ignored_topic(topic.as_str()) {
        return None;
    }
    match schema {
        Some(s) => {
            let namespace = s.namespace.clone();
            let name = s.name.clone();
            let flat = s.flatten(&Vec::new());
            proof {
                assert(string_views(Seq::<String>::empty()) =~= Seq::<Seq<char>>::empty());
            }
            let state = SubscriptionState {
                message_schema: flat,
                topic_name: topic.clone(),
                node_namespace: node.namespace.clone(),
                node_name: node.name.clone(),
                node_timeline_id: node.timeline_id,
            };
            let event = RmwEvent::create_subscription(node.timeline_id, topic, namespace, name);
            Some((state, event))
        },
        None => None,
    }
}

/// A subscription was destroyed: a `DestroySubscription` event when it was known.
pub fn subscription_destroyed(subscription: Option<&SubscriptionState>) -> (r: Option<RmwEvent>)
    ensures
        r is Some <==> subscription is Some,
        r matches Some(e) ==> e matches RmwEvent::DestroySubscription { node_timeline_id, topic, .. }
            && node_timeline_id == subscription.unwrap().node_timeline_id && topic@
            == subscription.unwrap().topic_name@,
{
    match subscription {
        Some(s) => Some(RmwEvent::destroy_subscription(s.node_timeline_id, s.topic_name.clone())),
        None => None,
    }
}

impl SubscriptionState {
    /// The messages captured when this subscription takes `message`, with
    /// the message info the middleware filled in: one per event the message
    /// becomes, each received from the publisher `publisher_gid`, with the
    /// source and receive times as epoch nanoseconds.
    pub fn capture_received(
        &self,
        message: &MessageImage,
        source_timestamp: i64,
        received_timestamp: i64,
        publisher_gid: [u8; 24],
        platform: Platform,
        max_array_len: usize,
    ) -> (r: Vec<CapturedMessageWithTime>)
        ensures
            r@.len() == spec_compound_message(self.message_schema@, *message, platform, max_array_len).len(),
            forall|i: int|
                0 <= i < r@.len() ==> {
                    &&& spec_captured(
                        (#[trigger] r@[i]).msg,
                        spec_compound_message(self.message_schema@, *message, platform, max_array_len)[i],
                        self.topic_name@,
                        self.node_namespace@,
                        self.node_name@,
                        self.node_timeline_id,
                        MessageDirection::Receive {
                            remote_publisher_graph_id: Some(PublisherGraphId(publisher_gid)),
                        },
                    )
                    &&& r@[i].publish_time == CapturedTime::SignedEpochNanos(source_timestamp)
                    &&& r@[i].receive_time == Some(CapturedTime::SignedEpochNanos(received_timestamp))
                },
    {
        let all = self.message_schema.interpret_potentially_compound_message(message, platform, max_array_len);
        let ghost evs = events_model(all@);
        let ghost full = all@;
        let direction = MessageDirection::Receive {
            remote_publisher_graph_id: Some(PublisherGraphId(publisher_gid)),
        };
        let mut rest = all;
        let mut out: Vec<CapturedMessageWithTime> = Vec::new();
        let n = rest.len();
        let mut i: usize = 0;
        assert(rest@ =~= full.subrange(0, n as int));
        while rest.len() > 0
            invariant
                n == full.len(),
                i + rest@.len() == n,
                rest@ == full.subrange(i as int, n as int),
                evs == events_model(full),
                out@.len() == i,
                direction == (MessageDirection::Receive {
                    remote_publisher_graph_id: Some(PublisherGraphId(publisher_gid)),
                }),
                forall|k: int|
                    0 <= k < i ==> {
                        &&& spec_captured(
                            (#[trigger] out@[k]).msg,
                            evs[k],
                            self.topic_name@,
                            self.node_namespace@,
                            self.node_name@,
                            self.node_timeline_id,
                            direction,
                        )
                        &&& out@[k].publish_time == CapturedTime::SignedEpochNanos(source_timestamp)
                        &&& out@[k].receive_time == Some(
                            CapturedTime::SignedEpochNanos(received_timestamp),
                        )
                    },
            decreases rest@.len(),
        {
            let kvs = rest.remove(0);
            proof {
                assert(kvs == full[i as int]);
                assert(rest@ =~= full.subrange(i + 1, n as int));
            }
            out.push(
                CapturedMessageWithTime {
                    msg: CapturedMessage {
                        kvs,
                        topic_name: self.topic_name.clone(),
                        node_namespace: self.node_namespace.clone(),
                        node_name: self.node_name.clone(),
                        node_timeline_id: self.node_timeline_id,
                        direction,
                    },
                    publish_time: CapturedTime::SignedEpochNanos(source_timestamp),
                    receive_time: Some(CapturedTime::SignedEpochNanos(received_timestamp)),
                },
            );
            i = i + 1;
        }
        out
    }
}

// ---------------------------------------------------------------------
// Services and clients
// ---------------------------------------------------------------------

/// A service server was created on `node`: its state and the
/// `CreateService` event, when its type could be described.
pub fn service_created(node: &NodeState, service_name: &[u8], schema: Option<RosServiceSchema>) -> (r: Option<
    (ServiceState, RmwEvent),
>)
    ensures
        r is Some <==> schema is Some,
        r matches Some((st, e)) ==> {
            &&& st.service_name@ == spec_topic_name(service_name@)
            &&& st.node_timeline_id == node.timeline_id
            &&& st.schema == schema.unwrap()
            &&& e matches RmwEvent::CreateService {
                node_timeline_id,
                service_name: sn,
                schema_namespace,
                schema_name,
                ..
            }
            &&& node_timeline_id == node.timeline_id
            &&& sn@ == spec_topic_name(service_name@)
            &&& schema_namespace@ == schema.unwrap().namespace@
            &&& schema_name@ == schema.unwrap().name@
        },
{
    match schema {
        Some(s) => {
            let name = topic_name(service_name);
            let event = RmwEvent::CreateService {
                node_timeline_id: node.timeline_id,
                timestamp: now(),
                service_name: name.clone(),
                schema_namespace: s.namespace.clone(),
                schema_name: s.name.clone(),
            };
            Some((ServiceState { schema: s, node_timeline_id: node.timeline_id, service_name: name }, event))
        },
        None => None,
    }
}

/// A service server was destroyed: a `DestroyService` event when it was known.
pub fn service_destroyed(service: Option<&ServiceState>) -> (r: Option<RmwEvent>)
    ensures
        r is Some <==> service is Some,
        r matches Some(e) ==> e matches RmwEvent::DestroyService { node_timeline_id, service_name, .. }
            && node_timeline_id == service.unwrap().node_timeline_id && service_name@
            == service.unwrap().service_name@,
{
    match service {
        Some(s) => Some(
            RmwEvent::DestroyService {
                node_timeline_id: s.node_timeline_id,
                timestamp: now(),
                service_name: s.service_name.clone(),
            },
        ),
        None => None,
    }
}

/// A service client was created on `node`: its state and the
/// `CreateClient` event, when its type could be described.
pub fn client_created(node: &NodeState, service_name: &[u8], schema: Option<RosServiceSchema>) -> (r: Option<
    (ClientState, RmwEvent),
>)
    ensures
        r is Some <==> schema is Some,
        r matches Some((st, e)) ==> {
            &&& st.service_name@ == spec_topic_name(service_name@)
            &&& st.node_timeline_id == node.timeline_id
            &&& st.schema == schema.unwrap()
            &&& e matches RmwEvent::CreateClient {
                node_timeline_id,
                service_name: sn,
                schema_namespace,
                schema_name,
                ..
            }
            &&& node_timeline_id == node.timeline_id
            &&& sn@ == spec_topic_name(service_name@)
            &&& schema_namespace@ == schema.unwrap().namespace@
            &&& schema_name@ == schema.unwrap().name@
        },
{
    match schema {
        Some(s) => {
            let name = topic_name(service_name);
            let event = RmwEvent::CreateClient {
                node_timeline_id: node.timeline_id,
                timestamp: now(),
                service_name: name.clone(),
                schema_namespace: s.namespace.clone(),
                schema_name: s.name.clone(),
            };
            Some((ClientState { schema: s, node_timeline_id: node.timeline_id, service_name: name }, event))
        },
        None => None,
    }
}

/// A service client was destroyed: a `DestroyClient` event when it was known.
pub fn client_destroyed(client: Option<&ClientState>) -> (r: Option<RmwEvent>)
    ensures
        r is Some <==> client is Some,
        r matches Some(e) ==> e matches RmwEvent::DestroyClient { node_timeline_id, service_name, .. }
            && node_timeline_id == client.unwrap().node_timeline_id && service_name@
            == client.unwrap().service_name@,
{
    match client {
        Some(c) => Some(
            RmwEvent::DestroyClient {
                node_timeline_id: c.node_timeline_id,
                timestamp: now(),
                service_name: c.service_name.clone(),
            },
        ),
        None => None,
    }
}

/// The id of a fastrtps service client as the service side sees it (its
/// `writer_guid`): the 12-byte guid prefix of the client's reader followed
/// by the 4-byte entity id.
pub fn rtps_client_guid(guid_prefix: [u8; 12], entity_id: [u8; 4]) -> (r: [u8; 16])
    ensures
        r@ == guid_prefix@ + entity_id@,
{
    let mut full_guid = [0u8; 16];
    let mut i: usize = 0;
    while i < 12
        invariant
            i <= 12,
            full_guid@.len() == 16,
            forall|k: int| 0 <= k < i ==> full_guid@[k] == guid_prefix@[k],
        decreases 12 - i,
    {
        full_guid[i] = guid_prefix[i];
        i = i + 1;
    }
    while i < 16
        invariant
            12 <= i <= 16,
            full_guid@.len() == 16,
            forall|k: int| 0 <= k < 12 ==> full_guid@[k] == guid_prefix@[k],
            forall|k: int| 12 <= k < i ==> full_guid@[k] == entity_id@[k - 12],
        decreases 16 - i,
    {
        full_guid[i] = entity_id[i - 12];
        i = i + 1;
    }
    assert(full_guid@ =~= guid_prefix@ + entity_id@);
    full_guid
}

/// The bytes of a guid held as C `char`s.
pub fn guid_from_c_chars(guid: [i8; 16]) -> (r: [u8; 16])
    ensures
        forall|k: int| 0 <= k < 16 ==> r@[k] as int == (if guid@[k] < 0 { guid@[k] + 256 } else { guid@[k] as int }),
{
    let mut out = [0u8; 16];
    let mut i: usize = 0;
    while i < 16
        invariant
            i <= 16,
            out@.len() == 16,
            forall|k: int| 0 <= k < i ==> out@[k] as int == (if guid@[k] < 0 { guid@[k] + 256 } else { guid@[k] as int }),
        decreases 16 - i,
    {
        let b = guid[i];
        let v: u8 = if b < 0 { (b as i16 + 256) as u8 } else { b as u8 };
        out[i] = v;
        i = i + 1;
    }
    out
}

/// A step of a service interaction with the given parts.
pub open spec fn spec_service_event(
    e: ServiceEvent,
    timeline_id: TimelineId,
    service_name: Seq<char>,
    event_type: ServiceEventType,
    client_guid: [u8; 16],
    sequence_id: i64,
    kvs: Seq<KvModel>,
) -> bool {
    &&& e.timeline_id == timeline_id
    &&& e.service_name@ == service_name
    &&& e.event_type == event_type
    &&& e.client_guid == client_guid
    &&& e.sequence_id == sequence_id
    &&& kvs_model(e.kvs@) == kvs
}

fn service_event(
    timeline_id: TimelineId,
    service_name: &String,
    event_type: ServiceEventType,
    client_guid: [u8; 16],
    sequence_id: i64,
    kvs: Vec<KeyValue>,
) -> (r: ServiceEvent)
    ensures
        spec_service_event(r, timeline_id, service_name@, event_type, client_guid, sequence_id, kvs_model(kvs@)),
{
    ServiceEvent {
        timeline_id,
        timestamp: now(),
        service_name: service_name.clone(),
        event_type,
        client_guid,
        sequence_id,
        kvs,
    }
}

impl ClientState {
    /// The client sent a request (`SendRequest`), stamped with the time now.
    pub fn request_sent(
        &self,
        request: &MessageImage,
        client_guid: [u8; 16],
        sequence_id: i64,
        platform: Platform,
        max_array_len: usize,
    ) -> (r: ServiceEvent)
        ensures
            spec_service_event(
                r,
                self.node_timeline_id,
                self.service_name@,
                ServiceEventType::SendRequest,
                client_guid,
                sequence_id,
                spec_single_message(self.schema.request_members@, *request, platform, max_array_len),
            ),
    {
        let kvs = self.schema.request_members.interpret_single_message(request, platform, max_array_len);
        service_event(
            self.node_timeline_id,
            &self.service_name,
            ServiceEventType::SendRequest,
            client_guid,
            sequence_id,
            kvs,
        )
    }

    /// The client took a response (`TakeResponse`), stamped with the time now.
    pub fn response_taken(
        &self,
        response: &MessageImage,
        client_guid: [u8; 16],
        sequence_id: i64,
        platform: Platform,
        max_array_len: usize,
    ) -> (r: ServiceEvent)
        ensures
            spec_service_event(
                r,
                self.node_timeline_id,
                self.service_name@,
                ServiceEventType::TakeResponse,
                client_guid,
                sequence_id,
                spec_single_message(self.schema.response_members@, *response, platform, max_array_len),
            ),
    {
        let kvs = self.schema.response_members.interpret_single_message(response, platform, max_array_len);
        service_event(
            self.node_timeline_id,
            &self.service_name,
            ServiceEventType::TakeResponse,
            client_guid,
            sequence_id,
            kvs,
        )
    }
}

impl ServiceState {
    /// The service took a request (`TakeRequest`), stamped with the time now.
    pub fn request_taken(
        &self,
        request: &MessageImage,
        client_guid: [u8; 16],
        sequence_id: i64,
        platform: Platform,
        max_array_len: usize,
    ) -> (r: ServiceEvent)
        ensures
            spec_service_event(
                r,
                self.node_timeline_id,
                self.service_name@,
                ServiceEventType::TakeRequest,
                client_guid,
                sequence_id,
                spec_single_message(self.schema.request_members@, *request, platform, max_array_len),
            ),
    {
        let kvs = self.schema.request_members.interpret_single_message(request, platform, max_array_len);
        service_event(
            self.node_timeline_id,
            &self.service_name,
            ServiceEventType::TakeRequest,
            client_guid,
            sequence_id,
            kvs,
        )
    }

    /// The service sent a response (`SendResponse`), stamped with the time now.
    pub fn response_sent(
        &self,
        response: &MessageImage,
        client_guid: [u8; 16],
        sequence_id: i64,
        platform: Platform,
        max_array_len: usize,
    ) -> (r: ServiceEvent)
        ensures
            spec_service_event(
                r,
                self.node_timeline_id,
                self.service_name@,
                ServiceEventType::SendResponse,
                client_guid,
                sequence_id,
                spec_single_message(self.schema.response_members@, *response, platform, max_array_len),
            ),
    {
        let kvs = self.schema.response_members.interpret_single_message(response, platform, max_array_len);
        service_event(
            self.node_timeline_id,
            &self.service_name,
            ServiceEventType::SendResponse,
            client_guid,
            sequence_id,
            kvs,
        )
    }
}

} // verus!
