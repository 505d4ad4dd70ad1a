//! The registry of live nodes, by the address the middleware gave each: a
//! persistent hash trie map, swapped in whole by the hooks that change it.
use vstd::prelude::*;
use std::sync::Arc;
use crate::events::RmwEvent;
use crate::hooks::{NodeState, node_destroyed};

verus! {

/// The live nodes, by address, each shared with the hooks that read it.
/// The persistent map is kept whole: a change makes a new registry and
/// leaves the old one as it was.
#[verifier::external_body]
pub struct NodeRegistry {
    nodes: rpds::HashTrieMap<usize, Arc<NodeState>, archery::ArcK>,
}

/// What a node registry holds: the timeline (its 128 bits) of the node
/// registered at each address.
pub uninterp spec fn registered_node_timelines(m: NodeRegistry) -> Map<usize, u128>;

/// `HashTrieMap::new_with_hasher_and_ptr_kind` (what `Default` builds): an
/// empty registry.
#[verifier::external_body]
fn new_node_registry() -> (r: NodeRegistry)
    ensures
        registered_node_timelines(r).dom() == Set::<usize>::empty(),
{
    NodeRegistry { nodes: rpds::HashTrieMap::new_with_hasher_and_ptr_kind(std::collections::hash_map::RandomState::new()) }
}

/// `HashTrieMap::get`: the node registered at `ptr`, if one is.
#[verifier::external_body]
fn registry_get(m: &NodeRegistry, ptr: usize) -> (r: Option<&NodeState>)
    ensures
        r is Some <==> registered_node_timelines(*m).dom().contains(ptr),
        r matches Some(n) ==> n.timeline_id.0 == registered_node_timelines(*m)[ptr],
{
    m.nodes.get(&ptr).map(|n| n.as_ref())
}

/// `HashTrieMap::insert`: a registry that holds `node` at `ptr` (in place of
/// any node there before) and the rest as `m` holds it.
#[verifier::external_body]
fn registry_insert(m: &NodeRegistry, ptr: usize, node: NodeState) -> (r: NodeRegistry)
    ensures
        registered_node_timelines(r) == registered_node_timelines(*m).insert(ptr, node.timeline_id.0),
{
    NodeRegistry { nodes: m.nodes.insert(ptr, Arc::new(node)) }
}

/// `HashTrieMap::remove`: a registry without the node at `ptr`.
#[verifier::external_body]
fn registry_remove(m: &NodeRegistry, ptr: usize) -> (r: NodeRegistry)
    ensures
        registered_node_timelines(r) == registered_node_timelines(*m).remove(ptr),
{
    NodeRegistry { nodes: m.nodes.remove(&ptr) }
}

/// A registry with no node.
pub fn empty_node_registry() -> (r: NodeRegistry)
    ensures
        registered_node_timelines(r) == Map::<usize, u128>::empty(),
{
    let r = new_node_registry();
    assert(registered_node_timelines(r) =~= Map::<usize, u128>::empty());
    r
}

impl NodeRegistry {
    /// The node registered at `ptr`, if one is.
    pub fn node(&self, ptr: usize) -> (r: Option<&NodeState>)
        ensures
            r is Some <==> registered_node_timelines(*self).dom().contains(ptr),
            r matches Some(n) ==> n.timeline_id.0 == registered_node_timelines(*self)[ptr],
    {
        registry_get(self, ptr)
    }
}

/// A node was created at `ptr`: the registry that holds it there.
pub fn node_registered(nodes: &NodeRegistry, ptr: usize, node: NodeState) -> (r: NodeRegistry)
    ensures
        registered_node_timelines(r) == registered_node_timelines(*nodes).insert(ptr, node.timeline_id.0),
{
    registry_insert(nodes, ptr, node)
}

/// The node at `ptr` was destroyed: the `DestroyNode` event when a node
/// was registered there, and the registry without it.
pub fn node_unregistered(nodes: &NodeRegistry, ptr: usize) -> (r: (Option<RmwEvent>, NodeRegistry))
    ensures
        r.0 is Some <==> registered_node_timelines(*nodes).dom().contains(ptr),
        r.0 matches Some(e) ==> e matches RmwEvent::DestroyNode { node_timeline_id, .. }
            && node_timeline_id.0 == registered_node_timelines(*nodes)[ptr],
        registered_node_timelines(r.1) == registered_node_timelines(*nodes).remove(ptr),
{
    let event = node_destroyed(registry_get(nodes, ptr));
    (event, registry_remove(nodes, ptr))
}

} // verus!
