//! The concurrent hash maps (`dashmap::DashMap`) in which the node keeps
//! its function records and its resource accounting, and the calls the
//! library makes on them.
//!
//! A `DashMap` is mutated through a shared reference; the wrappers here
//! take a mutable one, so that what a call changes can be stated.
use vstd::prelude::*;
use dashmap::DashMap;
use crate::node_situation::NodeDescription;
use crate::records::States;
use crate::sla::{NodeId, SlaId};

verus! {

#[verifier::external_type_specification]
#[verifier::external_body]
#[verifier::reject_recursive_types(K)]
#[verifier::reject_recursive_types(V)]
#[verifier::reject_recursive_types(S)]
pub struct ExDashMap<K, V, S>(DashMap<K, V, S>);

/// A concurrent map of function records, by SLA id.
pub type LifecycleMap = DashMap<SlaId, States>;

/// A concurrent map of resource amounts, by cluster node name.
pub type ResourceMap = DashMap<String, Resources>;

/// A concurrent map of the child nodes of this fog node, by node id.
pub type NeighborMap = DashMap<NodeId, NodeDescription>;

/// The amounts of memory (bytes) and CPU (nanocpu) of a cluster node.
#[derive(Clone, Copy, Debug, PartialEq, Eq)]
pub struct Resources {
    pub memory: u64,
    pub cpu: u64,
}

/// The entries of a map of function records, by SLA id.
pub uninterp spec fn lifecycle_entries(map: DashMap<SlaId, States>) -> Map<SlaId, States>;

/// The entries of a map of resource amounts, by cluster node name.
pub uninterp spec fn resource_entries(map: DashMap<String, Resources>) -> Map<Seq<char>, Resources>;

/// `DashMap::new` for function records: an empty map.
#[verifier::external_body]
pub(crate) fn lifecycle_map_new() -> (m: LifecycleMap)
    ensures
        lifecycle_entries(m).dom() == Set::<SlaId>::empty(),
{
    DashMap::new()
}

/// `DashMap::insert` for function records: the key now maps to the value,
/// and every other entry stays.
#[verifier::external_body]
pub(crate) fn lifecycle_map_insert(m: &mut LifecycleMap, key: SlaId, value: States)
    ensures
        lifecycle_entries(*final(m)) == lifecycle_entries(*old(m)).insert(key, value),
{
    m.insert(key, value);
}

/// `DashMap::get` for function records, with the value cloned out of the
/// guard: the entry of the key, if there is one.
#[verifier::external_body]
pub(crate) fn lifecycle_map_get(m: &LifecycleMap, key: SlaId) -> (r: Option<States>)
    ensures
        lifecycle_entries(*m).dom().contains(key) ==> r == Some(lifecycle_entries(*m)[key]),
        !lifecycle_entries(*m).dom().contains(key) ==> r is None,
{
    match m.get(&key) {
        Some(entry) => Some(entry.value().clone()),
        None => None,
    }
}

/// `DashMap::new` for resource amounts: an empty map.
#[verifier::external_body]
pub(crate) fn resource_map_new() -> (m: ResourceMap)
    ensures
        resource_entries(m).dom().is_empty(),
{
    DashMap::new()
}

/// `DashMap::insert` for resource amounts: the node now maps to the value,
/// and every other entry stays.
#[verifier::external_body]
pub(crate) fn resource_map_insert(m: &mut ResourceMap, key: String, value: Resources)
    ensures
        resource_entries(*final(m)) == resource_entries(*old(m)).insert(key@, value),
{
    m.insert(key, value);
}

/// `DashMap::get` for resource amounts, with the value copied out of the
/// guard: the entry of the node, if there is one.
#[verifier::external_body]
pub(crate) fn resource_map_get(m: &ResourceMap, key: &str) -> (r: Option<Resources>)
    ensures
        resource_entries(*m).dom().contains(key@) ==> r == Some(resource_entries(*m)[key@]),
        !resource_entries(*m).dom().contains(key@) ==> r is None,
{
    match m.get(key) {
        Some(entry) => Some(*entry.value()),
        None => None,
    }
}

/// `DashMap::contains_key` for resource amounts.
#[verifier::external_body]
pub(crate) fn resource_map_contains(m: &ResourceMap, key: &str) -> (r: bool)
    ensures
        r == resource_entries(*m).dom().contains(key@),
{
    m.contains_key(key)
}

/// The keys that `DashMap::iter` walks, cloned. Each key of the map comes
/// out exactly once; the order depends on the map's hasher, which each
/// process seeds at random, and is left unsaid.
#[verifier::external_body]
pub(crate) fn resource_map_keys(m: &ResourceMap) -> (r: Vec<String>)
    ensures
        r@.len() == resource_entries(*m).dom().len(),
        forall|i: int, j: int| 0 <= i < j < r@.len() ==> r@[i]@ != r@[j]@,
        forall|i: int| 0 <= i < r@.len() ==> resource_entries(*m).dom().contains(#[trigger] r@[i]@),
        forall|k: Seq<char>| resource_entries(*m).dom().contains(k) ==> exists|i: int| 0 <= i < r@.len() && #[trigger] r@[i]@ == k,
{
    m.iter().map(|entry| entry.key().clone()).collect()
}

/// The entries of a map of child nodes, by node id.
pub uninterp spec fn neighbor_entries(map: DashMap<NodeId, NodeDescription>) -> Map<NodeId, NodeDescription>;

/// `DashMap::insert` for child nodes: the id now maps to the description,
/// and every other entry stays.
#[verifier::external_body]
pub(crate) fn neighbor_map_insert(m: &mut NeighborMap, key: NodeId, value: NodeDescription)
    ensures
        neighbor_entries(*final(m)) == neighbor_entries(*old(m)).insert(key, value),
{
    m.insert(key, value);
}

/// `DashMap::get` for child nodes, with the description copied out of the
/// guard: the entry of the id, if there is one.
#[verifier::external_body]
pub(crate) fn neighbor_map_get(m: &NeighborMap, key: NodeId) -> (r: Option<NodeDescription>)
    ensures
        neighbor_entries(*m).dom().contains(key) ==> r == Some(neighbor_entries(*m)[key]),
        !neighbor_entries(*m).dom().contains(key) ==> r is None,
{
    match m.get(&key) {
        Some(entry) => Some(*entry.value()),
        None => None,
    }
}

/// The ids that `DashMap::iter` walks. Each id of the map comes out exactly
/// once; the order depends on the map's hasher, which each process seeds at
/// random, and is left unsaid.
#[verifier::external_body]
pub(crate) fn neighbor_map_keys(m: &NeighborMap) -> (r: Vec<NodeId>)
    ensures
        r@.no_duplicates(),
        r@.to_set() == neighbor_entries(*m).dom(),
{
    m.iter().map(|entry| *entry.key()).collect()
}

} // verus!
