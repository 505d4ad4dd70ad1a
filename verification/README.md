# modality_ros_hook

Observability for ROS 2 with Modality: an `LD_PRELOAD` library that hooks the
rmw (ROS middleware) layer and turns node, publisher, subscription, service
and client activity, and the payloads of the messages they carry, into
Modality timelines and events.

## Layout

- `src/` is the verified core, written with Verus. It holds everything the
  hook decides:
  - `introspection`: ROS field type codes and the conversion of type-support
    descriptions into message schemas;
  - `schema`: message schemas and their flattening into dotted keys;
  - `scalar`: decoding of single field values into attribute values;
  - `interpret`: interpretation of whole message payloads, including
    diagnostic arrays and `/rosout` log messages;
  - `hooks`: the state kept per node, publisher, subscription, service and
    client, the events each hook emits, and the hand-over of published
    messages to the clock read that stamps them;
  - `registry`: the registry of live nodes and what creating and
    destroying a node does to it;
  - `processor`: what each event becomes in Modality, and the bookkeeping of
    timelines and their metadata;
  - `config`: the configuration made from the environment's values;
  - `events`, `attr`, `text`: the event types, attribute values and text
    helpers they share;
  - `laws`: properties of the library as a whole, proved.
- `app/` is the unverified shell: the C entry points, the reading of
  middleware memory into plain images, the shared registries, and the thread that
  talks to the Modality backend.
- `tests/` exercises the library on concrete values.

## Configuration

`MODALITY_ROS_CONNECT_TIMEOUT`, `MODALITY_ROS_IGNORED_TOPICS`,
`MODALITY_ROS_MAX_ARRAY_LEN`, `MODALITY_ROS_BUFFER_SIZE` and `MODALITY_RUN_ID`
configure the hook; see `ModalityRosHookConfig`.
