//! Accounting of the memory and CPU of the cluster nodes behind this fog
//! node: what each node offers (fixed when the node starts) and what the
//! functions placed on it use.
use vstd::prelude::*;
use crate::concurrent_map::{
    ResourceMap, Resources, resource_entries, resource_map_contains, resource_map_get,
    resource_map_insert, resource_map_keys, resource_map_new,
};

verus! {

/// What the cluster reports of one of its nodes: its name, what it uses and
/// what it can allocate, each possibly missing.
#[derive(Clone, Debug, PartialEq, Eq)]
pub struct NodeMetrics {
    pub name: String,
    pub usage: Option<Resources>,
    pub allocatable: Option<Resources>,
}

/// Why a resource operation was refused.
#[derive(Clone, Debug, PartialEq, Eq)]
pub enum ResourceError {
    /// The cluster metrics of this node lack its allocatable resources.
    MissingAllocatable(String),
    /// The cluster metrics of this node lack its used resources.
    MissingUsage(String),
    /// The node is not in the map of used resources.
    UnknownUsed(String),
    /// The node is not in the map of available resources (never the case
    /// while the accounting is well formed: both maps know the same nodes).
    UnknownAvailable(String),
}

/// The error for the first node of `metrics` whose report is incomplete
/// (allocatable resources are looked at first), if there is one.
pub open spec fn first_incomplete(metrics: Seq<NodeMetrics>) -> Option<ResourceError>
    decreases metrics.len(),
{
    if metrics.len() == 0 {
        None
    } else if metrics[0].allocatable is None {
        Some(ResourceError::MissingAllocatable(metrics[0].name))
    } else if metrics[0].usage is None {
        Some(ResourceError::MissingUsage(metrics[0].name))
    } else {
        first_incomplete(metrics.drop_first())
    }
}

/// The names of the nodes reported in `metrics`.
pub open spec fn reported_names(metrics: Seq<NodeMetrics>) -> Set<Seq<char>> {
    Set::new(|k: Seq<char>| exists|i: int| 0 <= i < metrics.len() && #[trigger] metrics[i].name@ == k)
}

/// The map that gives `value` to every name in `names`.
pub open spec fn uniform(names: Set<Seq<char>>, value: Resources) -> Map<Seq<char>, Resources> {
    Map::new(|k: Seq<char>| names.contains(k), |k: Seq<char>| value)
}

/// Nothing used: zero bytes and zero CPU.
pub open spec fn nothing() -> Resources {
    Resources { memory: 0, cpu: 0 }
}

/// The resources of the cluster nodes: what each offers, what is used on
/// each, and the list of the nodes.
pub struct ResourceTracking {
    resources_available: ResourceMap,
    resources_used: ResourceMap,
    nodes: Vec<String>,
}

impl ResourceTracking {
    /// What each node offers, by node name.
    pub closed spec fn available(&self) -> Map<Seq<char>, Resources> {
        resource_entries(self.resources_available)
    }

    /// What is used on each node, by node name.
    pub closed spec fn used(&self) -> Map<Seq<char>, Resources> {
        resource_entries(self.resources_used)
    }

    /// The names of the nodes, in the order in which they are tried.
    pub closed spec fn nodes(&self) -> Seq<Seq<char>> {
        self.nodes@.map_values(|s: String| s@)
    }

    /// The accounting is consistent: both maps know the same nodes, and the
    /// node list names each of them exactly once.
    pub closed spec fn wf(&self) -> bool {
        &&& self.available().dom() == self.used().dom()
        &&& forall|i: int, j: int| 0 <= i < j < self.nodes@.len() ==> self.nodes@[i]@ != self.nodes@[j]@
        &&& forall|i: int| 0 <= i < self.nodes@.len() ==> self.used().dom().contains(#[trigger] self.nodes@[i]@)
        &&& forall|k: Seq<char>| self.used().dom().contains(k) ==> exists|i: int| 0 <= i < self.nodes@.len() && #[trigger] self.nodes@[i]@ == k
    }

    /// The nodes known to the accounting are exactly those listed by
    /// `nodes`, each once, and both maps have an entry for each.
    pub proof fn lemma_nodes(&self)
        requires
            self.wf(),
        ensures
            self.available().dom() == self.used().dom(),
            forall|i: int, j: int| 0 <= i < j < self.nodes().len() ==> self.nodes()[i] != self.nodes()[j],
            forall|i: int| 0 <= i < self.nodes().len() ==> self.used().dom().contains(#[trigger] self.nodes()[i]),
            forall|k: Seq<char>| self.used().dom().contains(k) ==> exists|i: int| 0 <= i < self.nodes().len() && #[trigger] self.nodes()[i] == k,
    {
        assert forall|k: Seq<char>| self.used().dom().contains(k) implies exists|i: int| 0 <= i < self.nodes().len() && #[trigger] self.nodes()[i] == k by {
            let i = choose|i: int| 0 <= i < self.nodes@.len() && #[trigger] self.nodes@[i]@ == k;
            assert(self.nodes()[i] == k);
        }
    }

    /// Start the accounting from the cluster's report: every reported node
    /// offers the reserved amounts and uses nothing. Refused when a node's
    /// report lacks its allocatable or its used resources.
    pub fn new(metrics: Vec<NodeMetrics>, reserved_cpu: u64, reserved_memory: u64) -> (r: Result<Self, ResourceError>)
        ensures
            first_incomplete(metrics@) is Some ==> r == Err::<Self, ResourceError>(first_incomplete(metrics@)->0),
            first_incomplete(metrics@) is None ==> r is Ok,
            r matches Ok(t) ==> {
                &&& t.wf()
                &&& t.available() == uniform(reported_names(metrics@), Resources { memory: reserved_memory, cpu: reserved_cpu })
                &&& t.used() == uniform(reported_names(metrics@), nothing())
            },
    {
        let mut available = resource_map_new();
        let mut used = resource_map_new();
        let n = metrics.len();
        assert(metrics@.skip(0) =~= metrics@);
        assert(metrics@.take(0) =~= Seq::<NodeMetrics>::empty());
        assert(resource_entries(available) =~= uniform(reported_names(metrics@.take(0)), Resources { memory: reserved_memory, cpu: reserved_cpu }));
        assert(resource_entries(used) =~= uniform(reported_names(metrics@.take(0)), nothing()));
        for i in 0..n
            invariant
                n == metrics@.len(),
                first_incomplete(metrics@) == first_incomplete(metrics@.skip(i as int)),
                resource_entries(available) == uniform(reported_names(metrics@.take(i as int)), Resources { memory: reserved_memory, cpu: reserved_cpu }),
                resource_entries(used) == uniform(reported_names(metrics@.take(i as int)), nothing()),
        {
            let entry = &metrics[i];
            assert(metrics@.skip(i as int)[0] == metrics@[i as int]);
            assert(metrics@.skip(i as int).drop_first() =~= metrics@.skip(i + 1));
            if entry.allocatable.is_none() {
                return Err(ResourceError::MissingAllocatable(entry.name.clone()));
            }
            if entry.usage.is_none() {
                return Err(ResourceError::MissingUsage(entry.name.clone()));
            }
            let ghost before = metrics@.take(i as int);
            let ghost after = metrics@.take(i + 1);
            assert(after =~= before.push(metrics@[i as int]));
            assert(reported_names(after) =~= reported_names(before).insert(entry.name@)) by {
                assert forall|k: Seq<char>| reported_names(after).contains(k) implies reported_names(before).insert(entry.name@).contains(k) by {
                    let j = choose|j: int| 0 <= j < after.len() && #[trigger] after[j].name@ == k;
                    if j < before.len() {
                        assert(before[j] == after[j]);
                    }
                }
                assert forall|k: Seq<char>| reported_names(before).insert(entry.name@).contains(k) implies reported_names(after).contains(k) by {
                    if k == entry.name@ {
                        assert(after[before.len() as int] == metrics@[i as int]);
                    } else {
                        let j = choose|j: int| 0 <= j < before.len() && #[trigger] before[j].name@ == k;
                        assert(after[j] == before[j]);
                    }
                }
            }
            resource_map_insert(&mut available, entry.name.clone(), Resources { memory: reserved_memory, cpu: reserved_cpu });
            resource_map_insert(&mut used, entry.name.clone(), Resources { memory: 0, cpu: 0 });
            assert(resource_entries(available) =~= uniform(reported_names(after), Resources { memory: reserved_memory, cpu: reserved_cpu }));
            assert(resource_entries(used) =~= uniform(reported_names(after), nothing()));
        }
        assert(metrics@.skip(n as int) =~= Seq::<NodeMetrics>::empty());
        assert(metrics@.take(n as int) =~= metrics@);
        let nodes = resource_map_keys(&available);
        assert(resource_entries(available).dom() =~= resource_entries(used).dom());
        let ghost nodes_view = nodes@;
        let t = ResourceTracking { resources_available: available, resources_used: used, nodes };
        assert(t.available() == uniform(reported_names(metrics@), Resources { memory: reserved_memory, cpu: reserved_cpu }));
        assert(t.used() == uniform(reported_names(metrics@), nothing()));
        assert forall|k: Seq<char>| t.used().dom().contains(k) implies exists|i: int| 0 <= i < t.nodes@.len() && #[trigger] t.nodes@[i]@ == k by {
            assert(resource_entries(available).dom().contains(k));
            let i = choose|i: int| 0 <= i < nodes_view.len() && #[trigger] nodes_view[i]@ == k;
            assert(t.nodes@[i]@ == k);
        }
        assert forall|i: int| 0 <= i < t.nodes@.len() implies t.used().dom().contains(#[trigger] t.nodes@[i]@) by {
            assert(resource_entries(available).dom().contains(t.nodes@[i]@));
        }
        Ok(t)
    }

    /// Check that the node is known to both maps.
    pub fn key_exists(&self, name: &str) -> (r: Result<(), ResourceError>)
        requires
            self.wf(),
        ensures
            r is Ok <==> self.used().dom().contains(name@),
            r matches Err(e) ==> e matches ResourceError::UnknownUsed(s) && s@ == name@,
    {
        if !resource_map_contains(&self.resources_used, name) {
            return Err(ResourceError::UnknownUsed(name.to_string()));
        }
        if !resource_map_contains(&self.resources_available, name) {
            return Err(ResourceError::UnknownAvailable(name.to_string()));
        }
        Ok(())
    }

    /// Record what is now used on the node. Refused, with nothing changed,
    /// when the node is unknown.
    pub fn set_used(&mut self, name: String, memory: u64, cpu: u64) -> (r: Result<(), ResourceError>)
        requires
            old(self).wf(),
        ensures
            final(self).wf(),
            r is Ok <==> old(self).used().dom().contains(name@),
            r is Ok ==> final(self).used() == old(self).used().insert(name@, Resources { memory, cpu }),
            r is Err ==> final(self).used() == old(self).used(),
            final(self).available() == old(self).available(),
            final(self).nodes() == old(self).nodes(),
            r matches Err(e) ==> e matches ResourceError::UnknownUsed(s) && s@ == name@,
    {
        match self.key_exists(name.as_str()) {
            Ok(()) => {},
            Err(e) => return Err(e),
        }
        let ghost before = self.used();
        resource_map_insert(&mut self.resources_used, name, Resources { memory, cpu });
        assert(self.used().dom() =~= before.dom());
        assert forall|k: Seq<char>| self.used().dom().contains(k) implies exists|i: int| 0 <= i < self.nodes@.len() && #[trigger] self.nodes@[i]@ == k by {
            assert(before.dom().contains(k));
            let i = choose|i: int| 0 <= i < old(self).nodes@.len() && #[trigger] old(self).nodes@[i]@ == k;
            assert(self.nodes@[i]@ == k);
        }
        Ok(())
    }

    /// What is used on the node. Refused when the node is unknown.
    pub fn get_used(&self, name: &str) -> (r: Result<Resources, ResourceError>)
        requires
            self.wf(),
        ensures
            r is Ok <==> self.used().dom().contains(name@),
            r matches Ok(v) ==> v == self.used()[name@],
            r matches Err(e) ==> e matches ResourceError::UnknownUsed(s) && s@ == name@,
    {
        match self.key_exists(name) {
            Ok(()) => {},
            Err(e) => return Err(e),
        }
        match resource_map_get(&self.resources_used, name) {
            Some(v) => Ok(v),
            None => Err(ResourceError::UnknownUsed(name.to_string())),
        }
    }

    /// What the node offers; this part never changes after the start.
    /// Refused when the node is unknown.
    pub fn get_available(&self, name: &str) -> (r: Result<Resources, ResourceError>)
        requires
            self.wf(),
        ensures
            r is Ok <==> self.available().dom().contains(name@),
            r matches Ok(v) ==> v == self.available()[name@],
            r matches Err(e) ==> e matches ResourceError::UnknownUsed(s) && s@ == name@,
    {
        match self.key_exists(name) {
            Ok(()) => {},
            Err(e) => return Err(e),
        }
        match resource_map_get(&self.resources_available, name) {
            Some(v) => Ok(v),
            None => Err(ResourceError::UnknownAvailable(name.to_string())),
        }
    }

    /// The nodes, each once, in the order in which they are tried.
    pub fn get_nodes(&self) -> (r: &Vec<String>)
        requires
            self.wf(),
        ensures
            r@.map_values(|s: String| s@) == self.nodes(),
    {
        &self.nodes
    }
}

/// What `set_used` records on a known node is what `get_used` reads back
/// from it; the other nodes read as before, and what is available is
/// never touched.
pub proof fn law_set_used_is_read_back(used: Map<Seq<char>, Resources>, name: Seq<char>, value: Resources, other: Seq<char>)
    requires
        used.dom().contains(name),
    ensures
        used.insert(name, value).dom() == used.dom(),
        used.insert(name, value)[name] == value,
        other != name ==> used.insert(name, value)[other] == used[other],
{
    assert(used.insert(name, value).dom() =~= used.dom());
}

} // verus!
