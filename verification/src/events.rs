//! The events that the hooks capture and hand to the message processor.
use vstd::prelude::*;
use crate::attr::KeyValue;
use crate::text::{bytes_to_hex, spec_hex, to_owned_string};

verus! {

/// The identity of a Modality timeline (the 128 bits of its UUID).
#[derive(Debug, Clone, Copy, PartialEq, Eq, Hash, Structural)]
pub struct TimelineId(pub u128);

/// The unique identifier (gid) of a publisher.
#[derive(Debug, Clone, Copy, PartialEq, Eq, Hash)]
pub struct PublisherGraphId(pub [u8; 24]);

impl PublisherGraphId {
    /// The gid as 48 lowercase hex digits, two per byte (its display form).
    pub fn to_hex_string(&self) -> (r: String)
        ensures
            r@ == spec_hex(self.0@),
    {
        bytes_to_hex(self.0.as_slice())
    }
}

/// Whether a captured message was published here or received here.
#[derive(Debug, Clone, Copy, PartialEq, Eq)]
pub enum MessageDirection {
    Send { local_publisher_graph_id: Option<PublisherGraphId> },
    Receive { remote_publisher_graph_id: Option<PublisherGraphId> },
}

/// A point in time as the middleware reported it.
#[derive(Debug, Clone, Copy, PartialEq, Eq, Hash, Structural)]
pub enum CapturedTime {
    /// A `timespec`: seconds and nanoseconds.
    Compound { sec: i64, nsec: i64 },
    /// Nanoseconds since the Unix epoch.
    SignedEpochNanos(i64),
}

impl CapturedTime {
    /// Nanoseconds since the Unix epoch, when the time is not negative and
    /// the count fits in 64 unsigned bits.
    pub open spec fn spec_epoch_nanos(self) -> Option<u64> {
        match self {
            CapturedTime::Compound { sec, nsec } => {
                if sec < 0 || nsec < 0 || sec * 1_000_000_000 > u64::MAX {
                    None
                } else {
                    Some((sec * 1_000_000_000 + nsec) as u64)
                }
            },
            CapturedTime::SignedEpochNanos(ns) => {
                if ns < 0 {
                    None
                } else {
                    Some(ns as u64)
                }
            },
        }
    }

    /// Whether converting the time can overflow: a compound time whose
    /// seconds fit when scaled but whose sum with the nanoseconds does not.
    pub open spec fn spec_epoch_sum_overflows(self) -> bool {
        match self {
            CapturedTime::Compound { sec, nsec } => sec >= 0 && nsec >= 0 && sec * 1_000_000_000
                <= u64::MAX && sec * 1_000_000_000 + nsec > u64::MAX,
            CapturedTime::SignedEpochNanos(_) => false,
        }
    }

    pub fn to_epoch_nanos(self) -> (r: Option<u64>)
        requires
            !self.spec_epoch_sum_overflows(),
        ensures
            r == self.spec_epoch_nanos(),
    {
        match self {
            CapturedTime::Compound { sec, nsec } => {
                if sec < 0 || nsec < 0 {
                    return None;
                }
                let sec = sec as u64;
                let nsec = nsec as u64;
                match sec.checked_mul(1_000_000_000u64) {
                    Some(scaled) => Some(scaled + nsec),
                    None => None,
                }
            },
            CapturedTime::SignedEpochNanos(ns) => {
                if ns < 0 {
                    None
                } else {
                    Some(ns as u64)
                }
            },
        }
    }
}

/// The four steps of a service (RPC) interaction, as seen by the hook.
#[derive(Debug, Clone, Copy, PartialEq, Eq, Structural)]
pub enum ServiceEventType {
    SendRequest,
    TakeRequest,
    SendResponse,
    TakeResponse,
}

impl ServiceEventType {
    /// The step on the other side of the interaction: a request sent is a
    /// request taken, and a response sent is a response taken.
    pub open spec fn spec_opposite(self) -> ServiceEventType {
        match self {
            ServiceEventType::SendRequest => ServiceEventType::TakeRequest,
            ServiceEventType::TakeRequest => ServiceEventType::SendRequest,
            ServiceEventType::SendResponse => ServiceEventType::TakeResponse,
            ServiceEventType::TakeResponse => ServiceEventType::SendResponse,
        }
    }

    pub fn opposite(&self) -> (r: Self)
        ensures
            r == self.spec_opposite(),
    {
        match self {
            ServiceEventType::SendRequest => ServiceEventType::TakeRequest,
            ServiceEventType::TakeRequest => ServiceEventType::SendRequest,
            ServiceEventType::SendResponse => ServiceEventType::TakeResponse,
            ServiceEventType::TakeResponse => ServiceEventType::SendResponse,
        }
    }

    /// The name of the step, as it appears in `event.ros.service.event`.
    pub open spec fn spec_text(self) -> Seq<char> {
        match self {
            ServiceEventType::SendRequest => "send_request"@,
            ServiceEventType::TakeRequest => "recv_request"@,
            ServiceEventType::SendResponse => "send_response"@,
            ServiceEventType::TakeResponse => "recv_response"@,
        }
    }

    /// The step's display name.
    pub fn to_text(&self) -> (r: String)
        ensures
            r@ == self.spec_text(),
    {
        match self {
            ServiceEventType::SendRequest => to_owned_string("send_request"),
            ServiceEventType::TakeRequest => to_owned_string("recv_request"),
            ServiceEventType::SendResponse => to_owned_string("send_response"),
            ServiceEventType::TakeResponse => to_owned_string("recv_response"),
        }
    }
}

/// A step of a service interaction observed on one node.
#[derive(Debug)]
pub struct ServiceEvent {
    pub timeline_id: TimelineId,
    /// The timestamp captured at the point of our hook function.
    pub timestamp: Option<u64>,
    pub service_name: String,
    pub event_type: ServiceEventType,
    /// The uuid of a client, in a service interaction. This is stored
    /// as 'reader_guid' in a service client, and shows up as
    /// 'writer_guid' on the service side.
    pub client_guid: [u8; 16],
    pub sequence_id: i64,
    pub kvs: Vec<KeyValue>,
}

/// A message captured at a publisher or subscription.
#[derive(Debug)]
pub struct CapturedMessage {
    pub kvs: Vec<KeyValue>,
    pub topic_name: String,
    pub node_namespace: String,
    pub node_name: String,
    pub node_timeline_id: TimelineId,
    pub direction: MessageDirection,
}

/// A captured message with the times the middleware gave it.
#[derive(Debug)]
pub struct CapturedMessageWithTime {
    pub msg: CapturedMessage,
    pub publish_time: CapturedTime,
    pub receive_time: Option<CapturedTime>,
}

/// Everything the hooks hand to the message processor.
#[derive(Debug)]
pub enum RosEvent {
    Message(CapturedMessageWithTime),
    ServiceEvent(ServiceEvent),
    Rmw(RmwEvent),
}

impl From<CapturedMessageWithTime> for RosEvent {
    fn from(value: CapturedMessageWithTime) -> (r: RosEvent) {
        RosEvent::Message(value)
    }
}

impl vstd::std_specs::convert::FromSpecImpl<CapturedMessageWithTime> for RosEvent {
    open spec fn obeys_from_spec() -> bool {
        true
    }

    open spec fn from_spec(value: CapturedMessageWithTime) -> RosEvent {
        RosEvent::Message(value)
    }
}

impl From<RmwEvent> for RosEvent {
    fn from(value: RmwEvent) -> (r: RosEvent) {
        RosEvent::Rmw(value)
    }
}

impl vstd::std_specs::convert::FromSpecImpl<RmwEvent> for RosEvent {
    open spec fn obeys_from_spec() -> bool {
        true
    }

    open spec fn from_spec(value: RmwEvent) -> RosEvent {
        RosEvent::Rmw(value)
    }
}

impl RosEvent {
    /// The timeline the event goes on: that of the node it happened on.
    pub open spec fn spec_timeline_id(&self) -> TimelineId {
        match self {
            RosEvent::Message(m) => m.msg.node_timeline_id,
            RosEvent::ServiceEvent(e) => e.timeline_id,
            RosEvent::Rmw(e) => e.spec_timeline_id(),
        }
    }

    pub fn timeline_id(&self) -> (r: TimelineId)
        ensures
            r == self.spec_timeline_id(),
    {
        match self {
            RosEvent::Message(m) => m.msg.node_timeline_id,
            RosEvent::ServiceEvent(e) => e.timeline_id,
            RosEvent::Rmw(e) => *e.timeline_id(),
        }
    }
}

/// Operations at the RMW (ROS middleware) layer.
#[derive(Debug)]
pub enum RmwEvent {
    CreateNode {
        node_namespace: String,
        node_name: String,
        node_timeline_id: TimelineId,
        timestamp: Option<u64>,
    },
    DestroyNode { node_timeline_id: TimelineId, timestamp: Option<u64> },
    CreatePublisher {
        node_timeline_id: TimelineId,
        timestamp: Option<u64>,
        gid: Option<PublisherGraphId>,
        topic: String,
        schema_namespace: String,
        schema_name: String,
        pub_count: usize,
    },
    DestroyPublisher {
        node_timeline_id: TimelineId,
        timestamp: Option<u64>,
        gid: Option<PublisherGraphId>,
    },
    CreateSubscription {
        node_timeline_id: TimelineId,
        timestamp: Option<u64>,
        topic: String,
        schema_namespace: String,
        schema_name: String,
    },
    DestroySubscription { node_timeline_id: TimelineId, timestamp: Option<u64>, topic: String },
    CreateService {
        node_timeline_id: TimelineId,
        timestamp: Option<u64>,
        service_name: String,
        schema_namespace: String,
        schema_name: String,
    },
    DestroyService { node_timeline_id: TimelineId, timestamp: Option<u64>, service_name: String },
    CreateClient {
        node_timeline_id: TimelineId,
        timestamp: Option<u64>,
        service_name: String,
        schema_namespace: String,
        schema_name: String,
    },
    DestroyClient { node_timeline_id: TimelineId, timestamp: Option<u64>, service_name: String },
}

/// `std::time::SystemTime`, carried through opaquely.
#[verifier::external_type_specification]
#[verifier::external_body]
pub struct ExSystemTime(std::time::SystemTime);

/// `SystemTime::now`: the system clock's reading. Nothing is stated of it:
/// it is whatever the clock says.
#[verifier::external_body]
fn system_time_now() -> (r: std::time::SystemTime) {
    std::time::SystemTime::now()
}

/// `SystemTime::duration_since(UNIX_EPOCH)`: how long after the Unix epoch
/// `t` is; `None` where `t` is before it. Nothing more is stated, as
/// `Duration` has no model here.
#[verifier::external_body]
fn duration_since_unix_epoch(t: &std::time::SystemTime) -> (r: Option<std::time::Duration>) {
    match t.duration_since(std::time::UNIX_EPOCH) {
        Ok(d) => Some(d),
        Err(_) => None,
    }
}

/// `Duration::as_nanos`: the whole number of nanoseconds in `d`. Nothing is
/// stated of it, as `Duration` has no model here.
#[verifier::external_body]
fn duration_as_nanos(d: &std::time::Duration) -> (r: u128) {
    d.as_nanos()
}

/// The current time in nanoseconds since the epoch, when the clock reads
/// after the epoch and the count fits in 64 bits.
pub fn now() -> (r: Option<u64>) {
    let t = system_time_now();
    match duration_since_unix_epoch(&t) {
        Some(d) => epoch_nanos_to_u64(duration_as_nanos(&d)),
        None => None,
    }
}

/// A count of nanoseconds as a timestamp, when it fits in 64 bits.
pub fn epoch_nanos_to_u64(n: u128) -> (r: Option<u64>)
    ensures
        r == (if n <= u64::MAX as u128 {
            Some(n as u64)
        } else {
            None::<u64>
        }),
{
    if n <= u64::MAX as u128 {
        Some(n as u64)
    } else {
        None
    }
}

/// Whether `u` is the 128 bits of a random (version 4, RFC 4122 variant)
/// UUID: its version nibble is 4 and its variant bits are `10`.
pub open spec fn is_random_uuid(u: u128) -> bool {
    u & 0xF000_C000_0000_0000_0000u128 == 0x4000_8000_0000_0000_0000u128
}

/// `TimelineId::allocate` (auxon_sdk): a new timeline id made from a random
/// UUID, returned as the UUID's 128 bits (`Uuid::as_u128`). Of the value
/// only its UUID version and variant are stated: the rest is chance. It
/// panics only when the system's random source cannot be read.
#[verifier::external_body]
pub(crate) fn allocate_timeline_id() -> (r: TimelineId)
    ensures
        is_random_uuid(r.0),
{
    TimelineId(auxon_sdk::api::TimelineId::allocate().get_raw().as_u128())
}

impl RmwEvent {
    /// A node was created; stamped with the current time.
    pub fn create_node(node_namespace: String, node_name: String, node_timeline_id: TimelineId) -> (r:
        RmwEvent)
        ensures
            r matches RmwEvent::CreateNode { node_namespace: ns, node_name: n, node_timeline_id: t, .. }
                && ns == node_namespace && n == node_name && t == node_timeline_id,
    {
        RmwEvent::CreateNode { node_namespace, node_name, node_timeline_id, timestamp: now() }
    }

    pub fn destroy_node(node_timeline_id: TimelineId) -> (r: RmwEvent)
        ensures
            r matches RmwEvent::DestroyNode { node_timeline_id: t, .. } && t == node_timeline_id,
    {
        RmwEvent::DestroyNode { node_timeline_id, timestamp: now() }
    }

    pub fn create_publisher(
        node_timeline_id: TimelineId,
        gid: Option<PublisherGraphId>,
        topic: String,
        schema_namespace: String,
        schema_name: String,
        pub_count: usize,
    ) -> (r: RmwEvent)
        ensures
            r matches RmwEvent::CreatePublisher {
                node_timeline_id: t,
                gid: g,
                topic: tp,
                schema_namespace: sns,
                schema_name: sn,
                pub_count: c,
                ..
            } && t == node_timeline_id && g == gid && tp == topic && sns == schema_namespace && sn
                == schema_name && c == pub_count,
    {
        RmwEvent::CreatePublisher {
            node_timeline_id,
            timestamp: now(),
            gid,
            topic,
            schema_namespace,
            schema_name,
            pub_count,
        }
    }

    pub fn destroy_publisher(node_timeline_id: TimelineId, gid: Option<PublisherGraphId>) -> (r:
        RmwEvent)
        ensures
            r matches RmwEvent::DestroyPublisher { node_timeline_id: t, gid: g, .. } && t
                == node_timeline_id && g == gid,
    {
        RmwEvent::DestroyPublisher { node_timeline_id, timestamp: now(), gid }
    }

    pub fn create_subscription(
        node_timeline_id: TimelineId,
        topic: String,
        schema_namespace: String,
        schema_name: String,
    ) -> (r: RmwEvent)
        ensures
            r matches RmwEvent::CreateSubscription {
                node_timeline_id: t,
                topic: tp,
                schema_namespace: sns,
                schema_name: sn,
                ..
            } && t == node_timeline_id && tp == topic && sns == schema_namespace && sn == schema_name,
    {
        RmwEvent::CreateSubscription {
            node_timeline_id,
            timestamp: now(),
            topic,
            schema_namespace,
            schema_name,
        }
    }

    pub fn destroy_subscription(node_timeline_id: TimelineId, topic: String) -> (r: RmwEvent)
        ensures
            r matches RmwEvent::DestroySubscription { node_timeline_id: t, topic: tp, .. } && t
                == node_timeline_id && tp == topic,
    {
        RmwEvent::DestroySubscription { node_timeline_id, timestamp: now(), topic }
    }

    /// The timeline of the node the event happened on.
    pub open spec fn spec_timeline_id(&self) -> TimelineId {
        match self {
            RmwEvent::CreateNode { node_timeline_id, .. } => *node_timeline_id,
            RmwEvent::DestroyNode { node_timeline_id, .. } => *node_timeline_id,
            RmwEvent::CreatePublisher { node_timeline_id, .. } => *node_timeline_id,
            RmwEvent::DestroyPublisher { node_timeline_id, .. } => *node_timeline_id,
            RmwEvent::CreateSubscription { node_timeline_id, .. } => *node_timeline_id,
            RmwEvent::DestroySubscription { node_timeline_id, .. } => *node_timeline_id,
            RmwEvent::CreateService { node_timeline_id, .. } => *node_timeline_id,
            RmwEvent::DestroyService { node_timeline_id, .. } => *node_timeline_id,
            RmwEvent::CreateClient { node_timeline_id, .. } => *node_timeline_id,
            RmwEvent::DestroyClient { node_timeline_id, .. } => *node_timeline_id,
        }
    }

    /// When the event happened, if the clock could be read.
    pub open spec fn spec_timestamp(&self) -> Option<u64> {
        match self {
            RmwEvent::CreateNode { timestamp, .. } => *timestamp,
            RmwEvent::DestroyNode { timestamp, .. } => *timestamp,
            RmwEvent::CreatePublisher { timestamp, .. } => *timestamp,
            RmwEvent::DestroyPublisher { timestamp, .. } => *timestamp,
            RmwEvent::CreateSubscription { timestamp, .. } => *timestamp,
            RmwEvent::DestroySubscription { timestamp, .. } => *timestamp,
            RmwEvent::CreateService { timestamp, .. } => *timestamp,
            RmwEvent::DestroyService { timestamp, .. } => *timestamp,
            RmwEvent::CreateClient { timestamp, .. } => *timestamp,
            RmwEvent::DestroyClient { timestamp, .. } => *timestamp,
        }
    }

    pub fn timeline_id(&self) -> (r: &TimelineId)
        ensures
            *r == self.spec_timeline_id(),
    {
        match self {
            RmwEvent::CreateNode { node_timeline_id, .. }
            | RmwEvent::DestroyNode { node_timeline_id, .. }
            | RmwEvent::CreatePublisher { node_timeline_id, .. }
            | RmwEvent::DestroyPublisher { node_timeline_id, .. }
            | RmwEvent::CreateSubscription { node_timeline_id, .. }
            | RmwEvent::DestroySubscription { node_timeline_id, .. }
            | RmwEvent::CreateService { node_timeline_id, .. }
            | RmwEvent::DestroyService { node_timeline_id, .. }
            | RmwEvent::CreateClient { node_timeline_id, .. }
            | RmwEvent::DestroyClient { node_timeline_id, .. } => node_timeline_id,
        }
    }

    pub fn timestamp(&self) -> (r: &Option<u64>)
        ensures
            *r == self.spec_timestamp(),
    {
        match self {
            RmwEvent::CreateNode { timestamp, .. }
            | RmwEvent::DestroyNode { timestamp, .. }
            | RmwEvent::CreatePublisher { timestamp, .. }
            | RmwEvent::DestroyPublisher { timestamp, .. }
            | RmwEvent::CreateSubscription { timestamp, .. }
            | RmwEvent::DestroySubscription { timestamp, .. }
            | RmwEvent::CreateService { timestamp, .. }
            | RmwEvent::DestroyService { timestamp, .. }
            | RmwEvent::CreateClient { timestamp, .. }
            | RmwEvent::DestroyClient { timestamp, .. } => timestamp,
        }
    }
}

} // verus!
