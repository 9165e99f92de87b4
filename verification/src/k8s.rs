//! The cluster the fog node runs on: how its metrics and node reports are
//! merged into node metrics, and the cluster as seen without a live one (a
//! single node with fixed capacity).
use vstd::prelude::*;
use vstd::string::*;
use crate::concurrent_map::Resources;
use crate::quantity::{
    MissingUnitType, QuantityError, QuantityKind, expression_spec, parse_quantity, quantity_amount, split_spec,
};
use crate::resource_tracking::NodeMetrics;

verus! {

/// The name of the single cluster node of the offline cluster.
pub const OFFLINE_NODE_K8S: &'static str = "node";

/// The cluster.
#[derive(Debug)]
pub struct K8s;

impl K8s {
    pub fn new() -> (r: Self) {
        K8s
    }

    /// The metrics of the offline cluster: its single node uses nothing and
    /// can allocate one CPU and 256 MB.
    pub fn get_k8s_metrics(&self) -> (r: Vec<NodeMetrics>)
        ensures
            r@.len() == 1,
            r@[0].name@ == OFFLINE_NODE_K8S@,
            r@[0].usage == Some(Resources { memory: 0, cpu: 0 }),
            r@[0].allocatable == Some(Resources { memory: 256_000_000, cpu: 1_000_000_000 }),
    {
        let mut r: Vec<NodeMetrics> = Vec::new();
        r.push(NodeMetrics {
            name: String::from_str(OFFLINE_NODE_K8S),
            usage: Some(Resources { memory: 0, cpu: 0 }),
            allocatable: Some(Resources { memory: 256_000_000, cpu: 1_000_000_000 }),
        });
        r
    }
}

/// What the cluster's metrics API reports of a node's usage: its name (if
/// the item carries one) and its CPU and memory quantities, as text.
#[derive(Clone, Debug, PartialEq, Eq)]
pub struct UsageReport {
    pub name: Option<String>,
    pub cpu: String,
    pub memory: String,
}

/// The allocatable CPU and memory quantities of a node, as text, where the
/// node lists them.
#[derive(Clone, Debug, PartialEq, Eq)]
pub struct AllocatableReport {
    pub cpu: Option<String>,
    pub memory: Option<String>,
}

/// The status of a node, with its allocatable resources if it has them.
#[derive(Clone, Debug, PartialEq, Eq)]
pub struct NodeStatusReport {
    pub allocatable: Option<AllocatableReport>,
}

/// What the cluster's node API reports of a node: its name and status, each
/// possibly missing.
#[derive(Clone, Debug, PartialEq, Eq)]
pub struct NodeReport {
    pub name: Option<String>,
    pub status: Option<NodeStatusReport>,
}

/// Why the cluster's reports could not be merged into node metrics.
#[derive(Clone, Debug, PartialEq, Eq)]
pub enum K8sError {
    /// A usage item has no name.
    MissingMetricName,
    /// A node has no status.
    MissingStatus,
    /// A node's status has no allocatable resources.
    MissingAllocatable,
    /// A node has no name.
    MissingNodeName,
    /// A node's allocatable resources have no CPU entry.
    MissingCpu,
    /// A node's allocatable resources have no memory entry.
    MissingMemory,
    /// A node has no usage item of its name.
    UnknownNode(String),
    /// A quantity is not digits followed by word characters.
    UnparsableQuantity(String),
    /// A quantity, with its unit restored, is not an amount of a known unit
    /// or does not fit in 64 bits.
    UnreadableQuantity(String),
}

/// How a quantity reads: its missing unit restored (`unit` appended to the
/// prefix when `suffix`, in place of the prefix otherwise), then its amount
/// in the unit of `kind`.
pub open spec fn read_quantity(q: String, unit: Seq<char>, suffix: bool, kind: QuantityKind) -> Result<u64, K8sError> {
    match split_spec(q@) {
        None => Err(K8sError::UnparsableQuantity(q)),
        Some((m, p)) => {
            let expression = if suffix { m + seq![' '] + p + unit } else { m + seq![' '] + unit };
            match quantity_amount(expression, kind) {
                None => Err(K8sError::UnreadableQuantity(q)),
                Some(v) => Ok(v),
            }
        },
    }
}

/// The index of the first entry named `n`, or -1.
pub open spec fn index_of_name(v: Seq<NodeMetrics>, n: Seq<char>) -> int
    decreases v.len(),
{
    if v.len() == 0 {
        -1
    } else {
        let i = index_of_name(v.drop_last(), n);
        if i >= 0 {
            i
        } else if v.last().name@ == n {
            v.len() - 1
        } else {
            -1
        }
    }
}

/// The entry of a usage item: named, with its CPU read in nanocpu (the
/// cluster leaves the unit out: `ppb`) and its memory in bytes (the
/// cluster leaves `B` out), and no allocatable resources yet.
pub open spec fn usage_entry(u: UsageReport) -> Result<NodeMetrics, K8sError> {
    match u.name {
        None => Err(K8sError::MissingMetricName),
        Some(name) => match read_quantity(u.cpu, "ppb"@, false, QuantityKind::Cpu) {
            Err(e) => Err(e),
            Ok(cpu) => match read_quantity(u.memory, "B"@, true, QuantityKind::Memory) {
                Err(e) => Err(e),
                Ok(memory) => Ok(NodeMetrics { name, usage: Some(Resources { memory, cpu }), allocatable: None }),
            },
        },
    }
}

/// `v` with `m` in place of the entry of the same name, or added last.
pub open spec fn upsert(v: Seq<NodeMetrics>, m: NodeMetrics) -> Seq<NodeMetrics> {
    let i = index_of_name(v, m.name@);
    if i >= 0 {
        v.update(i, m)
    } else {
        v.push(m)
    }
}

/// The entries of the usage items, in order, a later item of a name
/// replacing an earlier one; the first faulty item gives the error.
pub open spec fn spec_usages(us: Seq<UsageReport>) -> Result<Seq<NodeMetrics>, K8sError>
    decreases us.len(),
{
    if us.len() == 0 {
        Ok(Seq::empty())
    } else {
        match spec_usages(us.drop_last()) {
            Err(e) => Err(e),
            Ok(v) => match usage_entry(us.last()) {
                Err(e) => Err(e),
                Ok(m) => Ok(upsert(v, m)),
            },
        }
    }
}

/// The entries with node `n`'s allocatable resources set on the entry of
/// its name: CPU read with the unit left out entirely (cores), memory in
/// bytes (`B` appended).
pub open spec fn allocate(v: Seq<NodeMetrics>, n: NodeReport) -> Result<Seq<NodeMetrics>, K8sError> {
    match n.status {
        None => Err(K8sError::MissingStatus),
        Some(st) => match st.allocatable {
            None => Err(K8sError::MissingAllocatable),
            Some(a) => match n.name {
                None => Err(K8sError::MissingNodeName),
                Some(name) => match a.cpu {
                    None => Err(K8sError::MissingCpu),
                    Some(cpu) => match a.memory {
                        None => Err(K8sError::MissingMemory),
                        Some(memory) => {
                            let i = index_of_name(v, name@);
                            if i < 0 {
                                Err(K8sError::UnknownNode(name))
                            } else {
                                match read_quantity(cpu, ""@, false, QuantityKind::Cpu) {
                                    Err(e) => Err(e),
                                    Ok(c) => match read_quantity(memory, "B"@, true, QuantityKind::Memory) {
                                        Err(e) => Err(e),
                                        Ok(m) => Ok(v.update(i, NodeMetrics {
                                            name: v[i].name,
                                            usage: v[i].usage,
                                            allocatable: Some(Resources { memory: m, cpu: c }),
                                        })),
                                    },
                                }
                            }
                        },
                    },
                },
            },
        },
    }
}

/// The entries after the nodes, in order; the first faulty node gives the
/// error.
pub open spec fn spec_nodes(v: Seq<NodeMetrics>, ns: Seq<NodeReport>) -> Result<Seq<NodeMetrics>, K8sError>
    decreases ns.len(),
{
    if ns.len() == 0 {
        Ok(v)
    } else {
        match spec_nodes(v, ns.drop_last()) {
            Err(e) => Err(e),
            Ok(w) => allocate(w, ns.last()),
        }
    }
}

/// The merge of the two reports: the usage items first, then the nodes.
pub open spec fn spec_aggregate(us: Seq<UsageReport>, ns: Seq<NodeReport>) -> Result<Seq<NodeMetrics>, K8sError> {
    match spec_usages(us) {
        Err(e) => Err(e),
        Ok(v) => spec_nodes(v, ns),
    }
}

proof fn lemma_index_prefix(s: Seq<NodeMetrics>, k: int, n: Seq<char>)
    requires
        0 <= k <= s.len(),
        index_of_name(s.take(k), n) >= 0,
    ensures
        index_of_name(s, n) == index_of_name(s.take(k), n),
    decreases s.len(),
{
    if k == s.len() {
        assert(s.take(k) =~= s);
    } else {
        assert(s.drop_last().take(k) =~= s.take(k));
        lemma_index_prefix(s.drop_last(), k, n);
    }
}

proof fn lemma_index_bounds(s: Seq<NodeMetrics>, n: Seq<char>)
    ensures
        -1 <= index_of_name(s, n) < s.len(),
        index_of_name(s, n) >= 0 ==> s[index_of_name(s, n)].name@ == n,
    decreases s.len(),
{
    if s.len() > 0 {
        lemma_index_bounds(s.drop_last(), n);
    }
}

/// The position of the entry named `name`, as `index_of_name` gives it.
fn find_name(v: &Vec<NodeMetrics>, name: &String) -> (r: Option<usize>)
    ensures
        r matches Some(i) ==> index_of_name(v@, name@) == i,
        r is None ==> index_of_name(v@, name@) == -1,
{
    let n = v.len();
    for j in 0..n
        invariant
            n == v@.len(),
            index_of_name(v@.take(j as int), name@) == -1,
    {
        assert(v@.take(j + 1).drop_last() =~= v@.take(j as int));
        if v[j].name == *name {
            proof { lemma_index_prefix(v@, j + 1, name@); }
            return Some(j);
        }
    }
    assert(v@.take(n as int) =~= v@);
    None
}

/// Read one quantity of a report, as `read_quantity` says.
fn read_report_quantity(q: &String, missing_unit: &MissingUnitType, kind: QuantityKind) -> (r: Result<u64, K8sError>)
    ensures
        (match *missing_unit {
            MissingUnitType::Suffix(s) => r == read_quantity(*q, s@, true, kind),
            MissingUnitType::Complete(c) => r == read_quantity(*q, c@, false, kind),
        }),
{
    proof {
        if let Some((m, p)) = split_spec(q@) {
            if let MissingUnitType::Suffix(sfx) = missing_unit {
                assert(expression_spec(m, p, *missing_unit) =~= m + seq![' '] + p + sfx@);
            }
        }
    }
    match parse_quantity(q.as_str(), missing_unit, kind) {
        Ok(v) => Ok(v),
        Err(QuantityError::Unparsable(_)) => Err(K8sError::UnparsableQuantity(q.clone())),
        Err(QuantityError::Unreadable(_)) => Err(K8sError::UnreadableQuantity(q.clone())),
    }
}

/// Merge what the cluster's metrics API and node API report into one entry
/// per node: each usage item gives a node its usage (a later item of the
/// same name replacing an earlier one), then each node gives the entry of
/// its name its allocatable resources. CPU usage is reported in nanocpu
/// without its unit, allocatable CPU in cores, memory in bytes without the
/// `B`. Refused at the first item or node that lacks a name, a status, its
/// allocatable resources or one of their entries, that names no usage
/// item, or whose quantity cannot be read.
pub fn aggregate_metrics(usages: Vec<UsageReport>, nodes: Vec<NodeReport>) -> (r: Result<Vec<NodeMetrics>, K8sError>)
    ensures
        (match spec_aggregate(usages@, nodes@) {
            Ok(v) => r matches Ok(w) && w@ == v,
            Err(e) => r == Err::<Vec<NodeMetrics>, K8sError>(e),
        }),
        r matches Ok(w) ==> merged_facts(usages@, nodes@, w@),
{
    let ppb = MissingUnitType::Complete(String::from_str("ppb"));
    let bytes = MissingUnitType::Suffix(String::from_str("B"));
    let cores = MissingUnitType::Complete(String::from_str(""));
    let mut v: Vec<NodeMetrics> = Vec::new();
    let nu = usages.len();
    for i in 0..nu
        invariant
            nu == usages@.len(),
            ppb matches MissingUnitType::Complete(c) && c@ == "ppb"@,
            bytes matches MissingUnitType::Suffix(c) && c@ == "B"@,
            spec_usages(usages@.take(i as int)) == Ok::<Seq<NodeMetrics>, K8sError>(v@),
    {
        assert(usages@.take(i + 1).drop_last() =~= usages@.take(i as int));
        assert(usages@.take(i + 1).last() == usages@[i as int]);
        let u = &usages[i];
        let name = match &u.name {
            Some(n) => n.clone(),
            None => {
                proof { lemma_usages_stop(usages@, i + 1); }
                return Err(K8sError::MissingMetricName);
            },
        };
        let cpu = match read_report_quantity(&u.cpu, &ppb, QuantityKind::Cpu) {
            Ok(c) => c,
            Err(e) => {
                proof { lemma_usages_stop(usages@, i + 1); }
                return Err(e);
            },
        };
        let memory = match read_report_quantity(&u.memory, &bytes, QuantityKind::Memory) {
            Ok(m) => m,
            Err(e) => {
                proof { lemma_usages_stop(usages@, i + 1); }
                return Err(e);
            },
        };
        let entry = NodeMetrics { name, usage: Some(Resources { memory, cpu }), allocatable: None };
        match find_name(&v, &entry.name) {
            Some(j) => {
                proof { lemma_index_bounds(v@, entry.name@); }
                v.set(j, entry);
            },
            None => {
                v.push(entry);
            },
        }
    }
    assert(usages@.take(nu as int) =~= usages@);
    let ghost base = v@;
    let nn = nodes.len();
    for i in 0..nn
        invariant
            nn == nodes@.len(),
            bytes matches MissingUnitType::Suffix(c) && c@ == "B"@,
            cores matches MissingUnitType::Complete(c) && c@ == ""@,
            spec_usages(usages@) == Ok::<Seq<NodeMetrics>, K8sError>(base),
            spec_nodes(base, nodes@.take(i as int)) == Ok::<Seq<NodeMetrics>, K8sError>(v@),
    {
        assert(nodes@.take(i + 1).drop_last() =~= nodes@.take(i as int));
        assert(nodes@.take(i + 1).last() == nodes@[i as int]);
        let node = &nodes[i];
        let status = match &node.status {
            Some(s) => s,
            None => {
                proof { lemma_nodes_stop(base, nodes@, i + 1); }
                return Err(K8sError::MissingStatus);
            },
        };
        let allocatable = match &status.allocatable {
            Some(a) => a,
            None => {
                proof { lemma_nodes_stop(base, nodes@, i + 1); }
                return Err(K8sError::MissingAllocatable);
            },
        };
        let name = match &node.name {
            Some(n) => n,
            None => {
                proof { lemma_nodes_stop(base, nodes@, i + 1); }
                return Err(K8sError::MissingNodeName);
            },
        };
        let cpu_text = match &allocatable.cpu {
            Some(c) => c,
            None => {
                proof { lemma_nodes_stop(base, nodes@, i + 1); }
                return Err(K8sError::MissingCpu);
            },
        };
        let memory_text = match &allocatable.memory {
            Some(m) => m,
            None => {
                proof { lemma_nodes_stop(base, nodes@, i + 1); }
                return Err(K8sError::MissingMemory);
            },
        };
        let j = match find_name(&v, name) {
            Some(j) => j,
            None => {
                proof { lemma_nodes_stop(base, nodes@, i + 1); }
                return Err(K8sError::UnknownNode(name.clone()));
            },
        };
        proof { lemma_index_bounds(v@, name@); }
        let cpu = match read_report_quantity(cpu_text, &cores, QuantityKind::Cpu) {
            Ok(c) => c,
            Err(e) => {
                proof { lemma_nodes_stop(base, nodes@, i + 1); }
                return Err(e);
            },
        };
        let memory = match read_report_quantity(memory_text, &bytes, QuantityKind::Memory) {
            Ok(m) => m,
            Err(e) => {
                proof { lemma_nodes_stop(base, nodes@, i + 1); }
                return Err(e);
            },
        };
        let old_entry = &v[j];
        let entry = NodeMetrics {
            name: old_entry.name.clone(),
            usage: old_entry.usage,
            allocatable: Some(Resources { memory, cpu }),
        };
        v.set(j, entry);
    }
    assert(nodes@.take(nn as int) =~= nodes@);
    proof { law_merged_metrics(usages@, nodes@); }
    Ok(v)
}

/// An error at the `k`-th usage item is the error of all of them.
proof fn lemma_usages_stop(us: Seq<UsageReport>, k: int)
    requires
        0 < k <= us.len(),
        spec_usages(us.take(k)) is Err,
    ensures
        spec_usages(us) == spec_usages(us.take(k)),
    decreases us.len(),
{
    if k == us.len() {
        assert(us.take(k) =~= us);
    } else {
        assert(us.drop_last().take(k) =~= us.take(k));
        lemma_usages_stop(us.drop_last(), k);
    }
}

/// An error at the `k`-th node is the error of all of them.
proof fn lemma_nodes_stop(v: Seq<NodeMetrics>, ns: Seq<NodeReport>, k: int)
    requires
        0 < k <= ns.len(),
        spec_nodes(v, ns.take(k)) is Err,
    ensures
        spec_nodes(v, ns) == spec_nodes(v, ns.take(k)),
    decreases ns.len(),
{
    if k == ns.len() {
        assert(ns.take(k) =~= ns);
    } else {
        assert(ns.drop_last().take(k) =~= ns.take(k));
        lemma_nodes_stop(v, ns.drop_last(), k);
    }
}

/// Whether the usage item carries the name `n`.
pub open spec fn usage_named(u: UsageReport, n: Seq<char>) -> bool {
    u.name is Some && u.name->0@ == n
}

/// Entry names are pairwise distinct.
pub open spec fn distinct_names(v: Seq<NodeMetrics>) -> bool {
    forall|i: int, j: int| 0 <= i < j < v.len() ==> v[i].name@ != v[j].name@
}

proof fn lemma_index_absent(v: Seq<NodeMetrics>, n: Seq<char>)
    ensures
        index_of_name(v, n) == -1 <==> forall|i: int| 0 <= i < v.len() ==> v[i].name@ != n,
    decreases v.len(),
{
    lemma_index_bounds(v, n);
    if v.len() > 0 {
        lemma_index_absent(v.drop_last(), n);
        if index_of_name(v, n) == -1 {
            assert forall|i: int| 0 <= i < v.len() implies v[i].name@ != n by {
                if i < v.len() - 1 {
                    assert(v.drop_last()[i] == v[i]);
                }
            }
        }
    }
}

/// Where `upsert` puts its entry.
pub open spec fn upsert_index(v: Seq<NodeMetrics>, m: NodeMetrics) -> int {
    let i = index_of_name(v, m.name@);
    if i >= 0 { i } else { v.len() as int }
}

#[verifier::spinoff_prover]
#[verifier::rlimit(40)]
proof fn lemma_upsert(v0: Seq<NodeMetrics>, m: NodeMetrics)
    requires
        distinct_names(v0),
    ensures
        ({
            let v = upsert(v0, m);
            let u = upsert_index(v0, m);
            &&& distinct_names(v)
            &&& 0 <= u < v.len()
            &&& v[u] == m
            &&& v.len() >= v0.len()
            &&& forall|i: int| 0 <= i < v.len() && i != u ==> i < v0.len() && v[i] == v0[i]
            &&& forall|j: int| 0 <= j < v0.len() && v0[j].name@ != m.name@ ==> j != u
        }),
{
    lemma_index_bounds(v0, m.name@);
    lemma_index_absent(v0, m.name@);
    let v = upsert(v0, m);
    let u = upsert_index(v0, m);
    assert forall|i: int, j: int| 0 <= i < j < v.len() implies v[i].name@ != v[j].name@ by {
        if i != u && j != u {
            assert(v[i] == v0[i] && v[j] == v0[j]);
        } else if i == u {
            assert(v[j] == v0[j]);
            if index_of_name(v0, m.name@) >= 0 {
                assert(v0[i].name@ == m.name@);
            }
        } else {
            assert(v[i] == v0[i]);
            if index_of_name(v0, m.name@) >= 0 {
                assert(v0[j].name@ == m.name@);
            }
        }
    }
}

/// What the entries of usage items `us` are: distinct names, each with its
/// usage and no allocatable resources yet, and exactly the names the items
/// carry.
pub open spec fn usage_entries_ok(us: Seq<UsageReport>, v: Seq<NodeMetrics>) -> bool {
    &&& distinct_names(v)
    &&& forall|i: int| 0 <= i < v.len() ==> (#[trigger] v[i]).usage is Some && v[i].allocatable is None
    &&& forall|i: int| #![trigger v[i]] 0 <= i < v.len() ==> exists|k: int| 0 <= k < us.len() && #[trigger] usage_named(us[k], v[i].name@)
    &&& forall|k: int| 0 <= k < us.len() ==> (#[trigger] us[k]).name is Some && exists|i: int| 0 <= i < v.len() && usage_named(us[k], v[i].name@)
}

proof fn lemma_usage_step(us: Seq<UsageReport>)
    requires
        us.len() > 0,
        spec_usages(us) is Ok,
    ensures
        spec_usages(us.drop_last()) is Ok,
        usage_entry(us.last()) is Ok,
        spec_usages(us)->Ok_0 == upsert(spec_usages(us.drop_last())->Ok_0, usage_entry(us.last())->Ok_0),
        usage_named(us.last(), (usage_entry(us.last())->Ok_0).name@),
        (usage_entry(us.last())->Ok_0).usage is Some,
        (usage_entry(us.last())->Ok_0).allocatable is None,
{
}

#[verifier::spinoff_prover]
#[verifier::rlimit(40)]
proof fn lemma_entries_extend(us: Seq<UsageReport>, v0: Seq<NodeMetrics>, m: NodeMetrics)
    requires
        us.len() > 0,
        usage_entries_ok(us.drop_last(), v0),
        usage_named(us.last(), m.name@),
        m.usage is Some,
        m.allocatable is None,
    ensures
        usage_entries_ok(us, upsert(v0, m)),
{
    let prev = us.drop_last();
    let v = upsert(v0, m);
    lemma_upsert(v0, m);
    let u = upsert_index(v0, m);
    assert(us[us.len() - 1] == us.last());
    assert forall|i: int| 0 <= i < v.len() implies (#[trigger] v[i]).usage is Some && v[i].allocatable is None by {
        if i != u {
            assert(v[i] == v0[i]);
        }
    }
    assert forall|i: int| #![trigger v[i]] 0 <= i < v.len() implies exists|k: int| 0 <= k < us.len() && #[trigger] usage_named(us[k], v[i].name@) by {
        if i == u {
            assert(usage_named(us[us.len() - 1], v[i].name@));
        } else {
            assert(v[i] == v0[i]);
            let k = choose|k: int| 0 <= k < prev.len() && #[trigger] usage_named(prev[k], v0[i].name@);
            assert(us[k] == prev[k]);
            assert(usage_named(us[k], v[i].name@));
        }
    }
    assert forall|k: int| 0 <= k < us.len() implies (#[trigger] us[k]).name is Some && exists|i: int| 0 <= i < v.len() && usage_named(us[k], v[i].name@) by {
        if k == us.len() - 1 {
            assert(usage_named(us[k], v[u].name@));
        } else {
            assert(us[k] == prev[k]);
            assert(prev[k].name is Some);
            let i = choose|i: int| 0 <= i < v0.len() && usage_named(prev[k], v0[i].name@);
            if v0[i].name@ == m.name@ {
                assert(usage_named(us[k], v[u].name@));
            } else {
                assert(v[i] == v0[i]);
                assert(usage_named(us[k], v[i].name@));
            }
        }
    }
}

proof fn lemma_usages_entries(us: Seq<UsageReport>)
    requires
        spec_usages(us) is Ok,
    ensures
        usage_entries_ok(us, spec_usages(us)->Ok_0),
    decreases us.len(),
{
    if us.len() > 0 {
        lemma_usage_step(us);
        lemma_usages_entries(us.drop_last());
        lemma_entries_extend(us, spec_usages(us.drop_last())->Ok_0, usage_entry(us.last())->Ok_0);
    }
}

/// Whether the node report carries the name `n`.
pub open spec fn node_named(r: NodeReport, n: Seq<char>) -> bool {
    r.name is Some && r.name->0@ == n
}

/// What the nodes `ns` did to the entries `base`, giving `w`: the same
/// entries in the same order with the same names and usages, allocatable
/// resources set on exactly the entries some node names, and every node
/// named after an entry.
pub open spec fn node_entries_ok(base: Seq<NodeMetrics>, ns: Seq<NodeReport>, w: Seq<NodeMetrics>) -> bool {
    &&& w.len() == base.len()
    &&& forall|i: int| 0 <= i < w.len() ==> (#[trigger] w[i]).name == base[i].name && w[i].usage == base[i].usage
    &&& forall|i: int| #![trigger w[i]] 0 <= i < w.len() ==>
        (w[i].allocatable is Some <==> (base[i].allocatable is Some || exists|k: int| 0 <= k < ns.len() && #[trigger] node_named(ns[k], w[i].name@)))
    &&& forall|k: int| 0 <= k < ns.len() ==> (#[trigger] ns[k]).name is Some && exists|i: int| 0 <= i < w.len() && node_named(ns[k], w[i].name@)
}

proof fn lemma_allocate_step(w: Seq<NodeMetrics>, n: NodeReport)
    requires
        allocate(w, n) is Ok,
    ensures
        n.name is Some,
        0 <= index_of_name(w, n.name->0@) < w.len(),
        w[index_of_name(w, n.name->0@)].name@ == n.name->0@,
        ({
            let i = index_of_name(w, n.name->0@);
            let r = allocate(w, n)->Ok_0;
            &&& r.len() == w.len()
            &&& r[i].name == w[i].name && r[i].usage == w[i].usage && r[i].allocatable is Some
            &&& forall|j: int| 0 <= j < w.len() && j != i ==> r[j] == w[j]
        }),
{
    lemma_index_bounds(w, n.name->0@);
}

#[verifier::spinoff_prover]
#[verifier::rlimit(40)]
proof fn lemma_nodes_extend(base: Seq<NodeMetrics>, ns: Seq<NodeReport>, w0: Seq<NodeMetrics>)
    requires
        ns.len() > 0,
        distinct_names(base),
        node_entries_ok(base, ns.drop_last(), w0),
        allocate(w0, ns.last()) is Ok,
    ensures
        node_entries_ok(base, ns, allocate(w0, ns.last())->Ok_0),
{
    let prev = ns.drop_last();
    let n = ns.last();
    lemma_allocate_step(w0, n);
    let idx = index_of_name(w0, n.name->0@);
    let w = allocate(w0, n)->Ok_0;
    assert(ns[ns.len() - 1] == n);
    assert forall|i: int| 0 <= i < w.len() implies (#[trigger] w[i]).name == base[i].name && w[i].usage == base[i].usage by {
        if i != idx {
            assert(w[i] == w0[i]);
        }
        assert(w0[i].name == base[i].name);
    }
    assert forall|i: int| #![trigger w[i]] 0 <= i < w.len() implies
        (w[i].allocatable is Some <==> (base[i].allocatable is Some || exists|k: int| 0 <= k < ns.len() && #[trigger] node_named(ns[k], w[i].name@))) by {
        assert(w0[i].name == base[i].name);
        if i == idx {
            assert(node_named(ns[ns.len() - 1], w[i].name@));
        } else {
            assert(w[i] == w0[i]);
            if exists|k: int| 0 <= k < ns.len() && #[trigger] node_named(ns[k], w[i].name@) {
                let k = choose|k: int| 0 <= k < ns.len() && #[trigger] node_named(ns[k], w[i].name@);
                if k == ns.len() - 1 {
                    assert(w0[idx].name == base[idx].name);
                    assert(base[i].name@ == base[idx].name@);
                    assert(false);
                } else {
                    assert(prev[k] == ns[k]);
                    assert(node_named(prev[k], w0[i].name@));
                }
            }
            if exists|k: int| 0 <= k < prev.len() && #[trigger] node_named(prev[k], w0[i].name@) {
                let k = choose|k: int| 0 <= k < prev.len() && #[trigger] node_named(prev[k], w0[i].name@);
                assert(ns[k] == prev[k]);
                assert(node_named(ns[k], w[i].name@));
            }
        }
    }
    assert forall|k: int| 0 <= k < ns.len() implies (#[trigger] ns[k]).name is Some && exists|i: int| 0 <= i < w.len() && node_named(ns[k], w[i].name@) by {
        if k == ns.len() - 1 {
            assert(node_named(ns[k], w[idx].name@));
        } else {
            assert(prev[k] == ns[k]);
            assert(prev[k].name is Some);
            let i = choose|i: int| 0 <= i < w0.len() && node_named(prev[k], w0[i].name@);
            assert(w[i].name == w0[i].name) by {
                if i != idx {
                    assert(w[i] == w0[i]);
                }
            }
            assert(node_named(ns[k], w[i].name@));
        }
    }
}

proof fn lemma_nodes_entries(base: Seq<NodeMetrics>, ns: Seq<NodeReport>)
    requires
        distinct_names(base),
        spec_nodes(base, ns) is Ok,
    ensures
        node_entries_ok(base, ns, spec_nodes(base, ns)->Ok_0),
    decreases ns.len(),
{
    if ns.len() == 0 {
        let w = spec_nodes(base, ns)->Ok_0;
        assert(w == base);
    } else {
        lemma_nodes_entries(base, ns.drop_last());
        lemma_nodes_extend(base, ns, spec_nodes(base, ns.drop_last())->Ok_0);
    }
}

/// What merged metrics `v` hold of the reports: one entry per name that
/// the usage items carry (every item carries one), each with its usage; an
/// entry has allocatable resources exactly when some node carries its name,
/// and every node carries the name of an entry.
pub open spec fn merged_facts(us: Seq<UsageReport>, ns: Seq<NodeReport>, v: Seq<NodeMetrics>) -> bool {
    &&& distinct_names(v)
    &&& forall|i: int| 0 <= i < v.len() ==> (#[trigger] v[i]).usage is Some
    &&& forall|i: int| #![trigger v[i]] 0 <= i < v.len() ==> exists|k: int| 0 <= k < us.len() && #[trigger] usage_named(us[k], v[i].name@)
    &&& forall|k: int| 0 <= k < us.len() ==> (#[trigger] us[k]).name is Some && exists|i: int| 0 <= i < v.len() && usage_named(us[k], v[i].name@)
    &&& forall|i: int| #![trigger v[i]] 0 <= i < v.len() ==>
        (v[i].allocatable is Some <==> exists|k: int| 0 <= k < ns.len() && #[trigger] node_named(ns[k], v[i].name@))
    &&& forall|k: int| 0 <= k < ns.len() ==> (#[trigger] ns[k]).name is Some && exists|i: int| 0 <= i < v.len() && node_named(ns[k], v[i].name@)
}

#[verifier::spinoff_prover]
#[verifier::rlimit(40)]
proof fn lemma_combine(us: Seq<UsageReport>, ns: Seq<NodeReport>, base: Seq<NodeMetrics>, v: Seq<NodeMetrics>)
    requires
        usage_entries_ok(us, base),
        node_entries_ok(base, ns, v),
    ensures
        merged_facts(us, ns, v),
{
    assert forall|i: int, j: int| 0 <= i < j < v.len() implies v[i].name@ != v[j].name@ by {
        assert(v[i].name == base[i].name);
        assert(v[j].name == base[j].name);
    }
    assert forall|i: int| 0 <= i < v.len() implies (#[trigger] v[i]).usage is Some by {
        assert(v[i].usage == base[i].usage);
        assert(base[i].usage is Some);
    }
    assert forall|i: int| #![trigger v[i]] 0 <= i < v.len() implies exists|k: int| 0 <= k < us.len() && #[trigger] usage_named(us[k], v[i].name@) by {
        assert(v[i].name == base[i].name);
        assert(base[i].usage is Some);
        let k = choose|k: int| 0 <= k < us.len() && #[trigger] usage_named(us[k], base[i].name@);
        assert(usage_named(us[k], v[i].name@));
    }
    assert forall|k: int| 0 <= k < us.len() implies (#[trigger] us[k]).name is Some && exists|i: int| 0 <= i < v.len() && usage_named(us[k], v[i].name@) by {
        assert(us[k].name is Some);
        let i = choose|i: int| 0 <= i < base.len() && usage_named(us[k], base[i].name@);
        assert(v[i].name == base[i].name);
    }
    assert forall|i: int| #![trigger v[i]] 0 <= i < v.len() implies
        (v[i].allocatable is Some <==> exists|k: int| 0 <= k < ns.len() && #[trigger] node_named(ns[k], v[i].name@)) by {
        assert(base[i].allocatable is None);
    }
}

/// Merged metrics hold what the reports say: one entry per name that the
/// usage items carry, each with its usage, with allocatable resources
/// exactly on the entries that nodes name (`merged_facts`).
pub proof fn law_merged_metrics(us: Seq<UsageReport>, ns: Seq<NodeReport>)
    requires
        spec_aggregate(us, ns) is Ok,
    ensures
        merged_facts(us, ns, spec_aggregate(us, ns)->Ok_0),
{
    lemma_usages_entries(us);
    let base = spec_usages(us)->Ok_0;
    lemma_nodes_entries(base, ns);
    lemma_combine(us, ns, base, spec_nodes(base, ns)->Ok_0);
}

} // verus!
