//! The function service: it owns the node's function records and resource
//! accounting together, and moves functions through their lifecycle while
//! keeping what is used on each cluster node in step with the SLAs of the
//! functions placed there.
use vstd::prelude::*;
use crate::accounting::{committed, lemma_committed_covers, lemma_committed_insert, share};
use crate::concurrent_map::Resources;
use crate::function_tracking::{FunctionTracking, finishable_of, paid_of, proposed_of, provisioned_of, removable_of};
use crate::records::{Finishable, Finished, Paid, Proposed, Provisioned, RemovableFunctionRecord, States};
use crate::resource_tracking::ResourceTracking;
use crate::sla::{SlaId, satisfiability_check, spec_satisfiable};

verus! {

/// Why the function service refused an operation, with the SLA concerned.
#[derive(Clone, Copy, Debug, PartialEq, Eq)]
pub enum FunctionError {
    /// No proposal is recorded for the SLA.
    NotProposed(SlaId),
    /// The SLA's cluster node is unknown to the resource accounting.
    UnknownNode(SlaId),
    /// The SLA cannot be respected anymore on its cluster node.
    Unsatisfiable(SlaId),
    /// The new usage of the cluster node would not fit in 64 bits.
    ResourceOverflow(SlaId),
    /// The SLA is not paid.
    NotPaid(SlaId),
    /// The SLA is not provisioned.
    NotProvisioned(SlaId),
    /// The SLA is not in a state where its function can be finished.
    NotFinishable(SlaId),
}

/// What paying for `id` gives, from the records and the accounting.
pub open spec fn spec_payment(
    db: Map<SlaId, States>,
    used: Map<Seq<char>, Resources>,
    available: Map<Seq<char>, Resources>,
    id: SlaId,
) -> Result<Paid, FunctionError> {
    match proposed_of(db, id) {
        None => Err(FunctionError::NotProposed(id)),
        Some(p) => {
            let n = p.node@;
            if !used.dom().contains(n) {
                Err(FunctionError::UnknownNode(id))
            } else if !spec_satisfiable(used[n].memory, used[n].cpu, available[n].memory, available[n].cpu, p.sla) {
                Err(FunctionError::Unsatisfiable(id))
            } else if used[n].memory + p.sla.memory > u64::MAX || used[n].cpu + p.sla.cpu > u64::MAX {
                Err(FunctionError::ResourceOverflow(id))
            } else {
                Ok(p.spec_to_paid())
            }
        },
    }
}

/// `base` with `extra` added on both resources.
pub open spec fn plus(base: Resources, memory: u64, cpu: u64) -> Resources {
    Resources { memory: (base.memory + memory) as u64, cpu: (base.cpu + cpu) as u64 }
}

/// `base` with `extra` taken off both resources.
pub open spec fn minus(base: Resources, memory: u64, cpu: u64) -> Resources {
    Resources { memory: (base.memory - memory) as u64, cpu: (base.cpu - cpu) as u64 }
}

/// Marker of a function service held under its lock.
pub struct Locked {}

/// Marker of a function service not under its lock.
pub struct Unlocked {}

/// The function service of the node.
pub struct Function {
    function_tracking: FunctionTracking,
    resource_tracking: ResourceTracking,
}

impl Function {
    /// The function records, by SLA id.
    pub closed spec fn records(&self) -> Map<SlaId, States> {
        self.function_tracking@
    }

    /// What is used on each cluster node.
    pub closed spec fn used(&self) -> Map<Seq<char>, Resources> {
        self.resource_tracking.used()
    }

    /// What each cluster node offers.
    pub closed spec fn available(&self) -> Map<Seq<char>, Resources> {
        self.resource_tracking.available()
    }

    /// The cluster nodes in the order in which they are tried.
    pub closed spec fn nodes(&self) -> Seq<Seq<char>> {
        self.resource_tracking.nodes()
    }

    /// The service is consistent: the accounting is well formed, finitely
    /// many SLAs are recorded, and what is used on each cluster node covers
    /// what the paid, provisioned and live functions there ask for.
    pub closed spec fn wf(&self) -> bool {
        &&& self.resource_tracking.wf()
        &&& self.records().dom().finite()
        &&& forall|n: Seq<char>| #[trigger] self.used().dom().contains(n) ==> {
            &&& self.used()[n].memory >= committed(self.records(), n, false)
            &&& self.used()[n].cpu >= committed(self.records(), n, true)
        }
    }

    /// The service over the given accounting, with no function recorded.
    pub fn new(resource_tracking: ResourceTracking) -> (r: Function)
        requires
            resource_tracking.wf(),
        ensures
            r.wf(),
            r.records().dom() == Set::<SlaId>::empty(),
            r.used() == resource_tracking.used(),
            r.available() == resource_tracking.available(),
            r.nodes() == resource_tracking.nodes(),
    {
        let r = Function { function_tracking: FunctionTracking::new(), resource_tracking };
        assert forall|n: Seq<char>| #[trigger] r.used().dom().contains(n) implies {
            &&& r.used()[n].memory >= committed(r.records(), n, false)
            &&& r.used()[n].cpu >= committed(r.records(), n, true)
        } by {
            crate::accounting::lemma_committed_empty(r.records(), n, false);
            crate::accounting::lemma_committed_empty(r.records(), n, true);
        }
        r
    }

    /// The function records, to read.
    pub fn function_tracking(&self) -> (r: &FunctionTracking)
        ensures
            r@ == self.records(),
    {
        &self.function_tracking
    }

    /// The resource accounting, to read.
    pub fn resource_tracking(&self) -> (r: &ResourceTracking)
        requires
            self.wf(),
        ensures
            r.wf(),
            r.used() == self.used(),
            r.available() == self.available(),
            r.nodes() == self.nodes(),
    {
        &self.resource_tracking
    }

    proof fn lemma_store_inactive(&self, id: SlaId, s: States)
        requires
            self.wf(),
            forall|n: Seq<char>| share(s, n, false) == 0 && share(s, n, true) == 0,
        ensures
            forall|n: Seq<char>| #[trigger] self.used().dom().contains(n) ==> {
                &&& self.used()[n].memory >= committed(self.records().insert(id, s), n, false)
                &&& self.used()[n].cpu >= committed(self.records().insert(id, s), n, true)
            },
    {
        assert forall|n: Seq<char>| #[trigger] self.used().dom().contains(n) implies {
            &&& self.used()[n].memory >= committed(self.records().insert(id, s), n, false)
            &&& self.used()[n].cpu >= committed(self.records().insert(id, s), n, true)
        } by {
            lemma_committed_insert(self.records(), id, s, n, false);
            lemma_committed_insert(self.records(), id, s, n, true);
            if self.records().dom().contains(id) {
                lemma_committed_covers(self.records(), id, n, false);
                lemma_committed_covers(self.records(), id, n, true);
            }
        }
    }

    /// Record a new proposal (a bid placed on its SLA), replacing whatever
    /// was recorded for that SLA.
    pub fn insert_proposal(&mut self, record: Proposed)
        requires
            old(self).wf(),
        ensures
            final(self).wf(),
            final(self).records() == old(self).records().insert(record.sla.id, States::Proposed(record)),
            final(self).used() == old(self).used(),
            final(self).available() == old(self).available(),
            final(self).nodes() == old(self).nodes(),
    {
        proof { self.lemma_store_inactive(record.sla.id, States::Proposed(record)); }
        let ghost before = self.records();
        self.function_tracking.insert(record);
        assert(self.records().dom() =~= before.dom().insert(record.sla.id));
        assert(self.used() == old(self).used());
        assert(self.records() == old(self).records().insert(record.sla.id, States::Proposed(record)));
        assert(self.resource_tracking.wf());
        assert(self.records().dom().finite());
    }

    /// What paying for `id` would give, without changing anything: the paid
    /// record, or why the payment is refused.
    pub fn check_payment(&self, id: SlaId) -> (r: Result<Paid, FunctionError>)
        requires
            self.wf(),
        ensures
            r == spec_payment(self.records(), self.used(), self.available(), id),
    {
        proof { self.resource_tracking.lemma_nodes(); }
        let proposal = match self.function_tracking.get_proposed(&id) {
            Some(p) => p,
            None => return Err(FunctionError::NotProposed(id)),
        };
        let used = match self.resource_tracking.get_used(proposal.node.as_str()) {
            Ok(v) => v,
            Err(_) => return Err(FunctionError::UnknownNode(id)),
        };
        let available = match self.resource_tracking.get_available(proposal.node.as_str()) {
            Ok(v) => v,
            Err(_) => return Err(FunctionError::UnknownNode(id)),
        };
        if !satisfiability_check(used.memory, used.cpu, available.memory, available.cpu, &proposal.sla) {
            return Err(FunctionError::Unsatisfiable(id));
        }
        if used.memory.checked_add(proposal.sla.memory).is_none() || used.cpu.checked_add(proposal.sla.cpu).is_none() {
            return Err(FunctionError::ResourceOverflow(id));
        }
        Ok(proposal.to_paid())
    }

    /// Accept the payment of the proposal recorded for `id`: the SLA must
    /// still be satisfiable on its cluster node; the record becomes paid and
    /// the SLA's memory and CPU are added to what the node uses. Refused,
    /// with nothing changed, otherwise.
    pub fn pay_function(&mut self, id: SlaId) -> (r: Result<Paid, FunctionError>)
        requires
            old(self).wf(),
        ensures
            final(self).wf(),
            r == spec_payment(old(self).records(), old(self).used(), old(self).available(), id),
            r matches Ok(paid) ==> {
                &&& old(self).used()[paid.node@].memory + paid.sla.memory * paid.sla.max_replica < old(self).available()[paid.node@].memory
                &&& old(self).used()[paid.node@].cpu + paid.sla.cpu * paid.sla.max_replica < old(self).available()[paid.node@].cpu
                &&& final(self).records() == old(self).records().insert(id, States::Paid(paid))
                &&& final(self).used() == old(self).used().insert(
                    paid.node@,
                    plus(old(self).used()[paid.node@], paid.sla.memory, paid.sla.cpu),
                )
            },
            r is Err ==> final(self).records() == old(self).records() && final(self).used() == old(self).used(),
            final(self).available() == old(self).available(),
            final(self).nodes() == old(self).nodes(),
    {
        proof { self.resource_tracking.lemma_nodes(); }
        let proposal = match self.function_tracking.get_proposed(&id) {
            Some(p) => p,
            None => return Err(FunctionError::NotProposed(id)),
        };
        let used = match self.resource_tracking.get_used(proposal.node.as_str()) {
            Ok(v) => v,
            Err(_) => return Err(FunctionError::UnknownNode(id)),
        };
        let available = match self.resource_tracking.get_available(proposal.node.as_str()) {
            Ok(v) => v,
            Err(_) => return Err(FunctionError::UnknownNode(id)),
        };
        if !satisfiability_check(used.memory, used.cpu, available.memory, available.cpu, &proposal.sla) {
            return Err(FunctionError::Unsatisfiable(id));
        }
        let new_memory = match used.memory.checked_add(proposal.sla.memory) {
            Some(v) => v,
            None => return Err(FunctionError::ResourceOverflow(id)),
        };
        let new_cpu = match used.cpu.checked_add(proposal.sla.cpu) {
            Some(v) => v,
            None => return Err(FunctionError::ResourceOverflow(id)),
        };
        let name = proposal.node.clone();
        let ghost n = proposal.node@;
        let ghost p = proposal;
        let ghost db0 = self.records();
        let ghost used0 = self.used();
        let paid = proposal.to_paid();
        proof {
            assert forall|m: Seq<char>| #[trigger] used0.insert(n, Resources { memory: new_memory, cpu: new_cpu }).dom().contains(m) implies {
                &&& used0.insert(n, Resources { memory: new_memory, cpu: new_cpu })[m].memory >= committed(db0.insert(id, States::Paid(paid)), m, false)
                &&& used0.insert(n, Resources { memory: new_memory, cpu: new_cpu })[m].cpu >= committed(db0.insert(id, States::Paid(paid)), m, true)
            } by {
                lemma_committed_insert(db0, id, States::Paid(paid), m, false);
                lemma_committed_insert(db0, id, States::Paid(paid), m, true);
                assert(used0.dom().contains(m));
            }
        }
        self.function_tracking.save_paid(&id, paid);
        let paid = match self.function_tracking.get_paid(&id) {
            Some(x) => x,
            None => {
                assert(false);
                return Err(FunctionError::NotPaid(id));
            },
        };
        let set = self.resource_tracking.set_used(name, new_memory, new_cpu);
        assert(set is Ok);
        assert(self.records().dom() =~= db0.dom());
        Ok(paid)
    }

    /// Deploy record of the paid function `id` under `function_name`: the
    /// record becomes provisioned. Refused, with nothing changed, when `id`
    /// is not paid.
    pub fn provision_function(&mut self, id: SlaId, function_name: String) -> (r: Result<Provisioned, FunctionError>)
        requires
            old(self).wf(),
        ensures
            final(self).wf(),
            paid_of(old(self).records(), id) is None ==> r == Err::<Provisioned, FunctionError>(FunctionError::NotPaid(id)),
            paid_of(old(self).records(), id) matches Some(paid) ==> r == Ok::<Provisioned, FunctionError>(paid.spec_to_provisioned(function_name)),
            r matches Ok(p) ==> final(self).records() == old(self).records().insert(id, States::Provisioned(p)),
            r is Err ==> final(self).records() == old(self).records(),
            final(self).used() == old(self).used(),
            final(self).available() == old(self).available(),
            final(self).nodes() == old(self).nodes(),
    {
        let paid = match self.function_tracking.get_paid(&id) {
            Some(p) => p,
            None => return Err(FunctionError::NotPaid(id)),
        };
        let provisioned = paid.to_provisioned(function_name);
        let ghost db0 = self.records();
        proof {
            assert forall|m: Seq<char>| #[trigger] self.used().dom().contains(m) implies {
                &&& self.used()[m].memory >= committed(db0.insert(id, States::Provisioned(provisioned)), m, false)
                &&& self.used()[m].cpu >= committed(db0.insert(id, States::Provisioned(provisioned)), m, true)
            } by {
                lemma_committed_insert(db0, id, States::Provisioned(provisioned), m, false);
                lemma_committed_insert(db0, id, States::Provisioned(provisioned), m, true);
            }
        }
        self.function_tracking.save_provisioned(&id, provisioned);
        match self.function_tracking.get_provisioned(&id) {
            Some(p) => {
                assert(self.records().dom() =~= db0.dom());
                Ok(p)
            },
            None => {
                assert(false);
                Err(FunctionError::NotProvisioned(id))
            },
        }
    }

    /// Record that the provisioned function `id` answers: the record becomes
    /// live. Refused, with nothing changed, when `id` is not provisioned.
    pub fn set_function_is_live(&mut self, id: SlaId) -> (r: Result<(), FunctionError>)
        requires
            old(self).wf(),
        ensures
            final(self).wf(),
            provisioned_of(old(self).records(), id) is None ==> r == Err::<(), FunctionError>(FunctionError::NotProvisioned(id)),
            provisioned_of(old(self).records(), id) matches Some(p) ==> r is Ok && final(self).records() == old(self).records().insert(id, States::Live(p.spec_to_live())),
            r is Err ==> final(self).records() == old(self).records(),
            final(self).used() == old(self).used(),
            final(self).available() == old(self).available(),
            final(self).nodes() == old(self).nodes(),
    {
        let provisioned = match self.function_tracking.get_provisioned(&id) {
            Some(p) => p,
            None => return Err(FunctionError::NotProvisioned(id)),
        };
        let live = provisioned.to_live();
        let ghost db0 = self.records();
        proof {
            assert forall|m: Seq<char>| #[trigger] self.used().dom().contains(m) implies {
                &&& self.used()[m].memory >= committed(db0.insert(id, States::Live(live)), m, false)
                &&& self.used()[m].cpu >= committed(db0.insert(id, States::Live(live)), m, true)
            } by {
                lemma_committed_insert(db0, id, States::Live(live), m, false);
                lemma_committed_insert(db0, id, States::Live(live), m, true);
            }
        }
        self.function_tracking.save_live(&id, live);
        assert(self.records().dom() =~= db0.dom());
        Ok(())
    }

    /// What finishing `id` would give, without changing anything: its
    /// finished record and, when its function was deployed, what is needed
    /// to remove it from the FaaS platform.
    pub fn check_finish(&self, id: SlaId) -> (r: Result<(Finished, Option<RemovableFunctionRecord>), FunctionError>)
        ensures
            finishable_of(self.records(), id) is None ==> r == Err::<(Finished, Option<RemovableFunctionRecord>), FunctionError>(FunctionError::NotFinishable(id)),
            finishable_of(self.records(), id) matches Some(f) ==> r == Ok::<(Finished, Option<RemovableFunctionRecord>), FunctionError>((f.spec_to_finished(), removable_of(self.records(), id))),
    {
        let record = match self.function_tracking.get_finishable(&id) {
            Some(f) => f.to_finished(),
            None => return Err(FunctionError::NotFinishable(id)),
        };
        let removable = self.function_tracking.get_removable(&id);
        Ok((record, removable))
    }

    /// Finish the function of `id` when its SLA comes to an end: the record
    /// becomes finished and the SLA's memory and CPU are given back to its
    /// cluster node (when that node is known to the accounting). When the
    /// function was deployed (provisioned or live), what is needed to remove
    /// it from the FaaS platform is returned, for the caller to remove it.
    /// Refused, with nothing changed, when `id` is not paid, provisioned or
    /// live.
    pub fn finish_function(&mut self, id: SlaId) -> (r: Result<Option<RemovableFunctionRecord>, FunctionError>)
        requires
            old(self).wf(),
        ensures
            final(self).wf(),
            finishable_of(old(self).records(), id) is None ==> r == Err::<Option<RemovableFunctionRecord>, FunctionError>(FunctionError::NotFinishable(id)) && final(self).records() == old(self).records() && final(self).used() == old(self).used(),
            finishable_of(old(self).records(), id) matches Some(f) ==> {
                let n = f.spec_node()@;
                &&& r == Ok::<Option<RemovableFunctionRecord>, FunctionError>(removable_of(old(self).records(), id))
                &&& final(self).records() == old(self).records().insert(id, States::Finished(f.spec_to_finished()))
                &&& old(self).used().dom().contains(n) ==> final(self).used() == old(self).used().insert(
                    n,
                    minus(old(self).used()[n], f.spec_sla().memory, f.spec_sla().cpu),
                )
                &&& !old(self).used().dom().contains(n) ==> final(self).used() == old(self).used()
            },
            final(self).available() == old(self).available(),
            final(self).nodes() == old(self).nodes(),
    {
        let finishable = match self.function_tracking.get_finishable(&id) {
            Some(f) => f,
            None => return Err(FunctionError::NotFinishable(id)),
        };
        let ghost f = finishable;
        let removable = self.function_tracking.get_removable(&id);
        let record = finishable.to_finished();
        let name = record.node.clone();
        let memory = record.sla.memory;
        let cpu = record.sla.cpu;
        let ghost db0 = self.records();
        let ghost used0 = self.used();
        let ghost n = f.spec_node()@;
        proof {
            assert(db0.dom().contains(id));
            lemma_committed_covers(db0, id, n, false);
            lemma_committed_covers(db0, id, n, true);
            assert(share(db0[id], n, false) == memory as int);
            assert(share(db0[id], n, true) == cpu as int);
            assert forall|m: Seq<char>| #[trigger] used0.dom().contains(m) implies {
                &&& used0[m].memory - (if m == n { memory as int } else { 0 }) >= committed(db0.insert(id, States::Finished(record)), m, false)
                &&& used0[m].cpu - (if m == n { cpu as int } else { 0 }) >= committed(db0.insert(id, States::Finished(record)), m, true)
            } by {
                lemma_committed_insert(db0, id, States::Finished(record), m, false);
                lemma_committed_insert(db0, id, States::Finished(record), m, true);
                if m != n {
                    assert(share(db0[id], m, false) == 0);
                    assert(share(db0[id], m, true) == 0);
                    lemma_committed_covers(db0, id, m, false);
                }
            }
        }
        self.function_tracking.save_finished(&id, record);
        assert(self.records().dom() =~= db0.dom());
        let used = match self.resource_tracking.get_used(name.as_str()) {
            Ok(v) => v,
            Err(_) => return Ok(removable),
        };
        let set = self.resource_tracking.set_used(name, used.memory - memory, used.cpu - cpu);
        assert(set is Ok);
        Ok(removable)
    }
}

/// What is used on each cluster node covers what the functions paid,
/// provisioned or live there ask for, in memory and in CPU: every
/// operation of the service keeps this so.
pub proof fn law_usage_covers_commitments(function: &Function)
    requires
        function.wf(),
    ensures
        forall|n: Seq<char>| #[trigger] function.used().dom().contains(n) ==> {
            &&& function.used()[n].memory >= committed(function.records(), n, false)
            &&& function.used()[n].cpu >= committed(function.records(), n, true)
        },
{
}

/// Finishing a function right after its payment gives its cluster node
/// back exactly what the payment took: the paid record is finishable, and
/// the node's usage returns to what it was before the payment.
pub proof fn law_finish_undoes_payment(
    db: Map<SlaId, States>,
    used: Map<Seq<char>, Resources>,
    available: Map<Seq<char>, Resources>,
    id: SlaId,
)
    requires
        spec_payment(db, used, available, id) is Ok,
    ensures
        ({
            let paid = spec_payment(db, used, available, id)->Ok_0;
            let n = paid.node@;
            let paid_db = db.insert(id, States::Paid(paid));
            let paid_used = used.insert(n, plus(used[n], paid.sla.memory, paid.sla.cpu));
            &&& finishable_of(paid_db, id) == Some(Finishable::Paid(paid))
            &&& paid_used.dom().contains(n)
            &&& paid_used.insert(n, minus(paid_used[n], paid.sla.memory, paid.sla.cpu)) == used
        }),
{
    let paid = spec_payment(db, used, available, id)->Ok_0;
    let n = paid.node@;
    let paid_used = used.insert(n, plus(used[n], paid.sla.memory, paid.sla.cpu));
    assert(paid_used.insert(n, minus(paid_used[n], paid.sla.memory, paid.sla.cpu)) =~= used);
}

/// A payment is accepted only while the proposal's SLA, with all of its
/// replicas, still fits strictly under what its node offers, in memory and
/// in CPU; the paid record is the proposal, and its node is known.
pub proof fn law_payment_needs_room_for_all_replicas(
    db: Map<SlaId, States>,
    used: Map<Seq<char>, Resources>,
    available: Map<Seq<char>, Resources>,
    id: SlaId,
)
    ensures
        spec_payment(db, used, available, id) matches Ok(paid) ==> {
            &&& db.dom().contains(id)
            &&& db[id] == States::Proposed(Proposed { bid_bits: paid.bid_bits, sla: paid.sla, node: paid.node })
            &&& used.dom().contains(paid.node@)
            &&& used[paid.node@].memory + paid.sla.memory * paid.sla.max_replica < available[paid.node@].memory
            &&& used[paid.node@].cpu + paid.sla.cpu * paid.sla.max_replica < available[paid.node@].cpu
        },
        db.dom().contains(id) ==> (db[id] matches States::Proposed(p) ==> (used.dom().contains(p.node@) && (
            used[p.node@].memory + p.sla.memory * p.sla.max_replica >= available[p.node@].memory
            || used[p.node@].cpu + p.sla.cpu * p.sla.max_replica >= available[p.node@].cpu
        ) ==> spec_payment(db, used, available, id) == Err::<Paid, FunctionError>(FunctionError::Unsatisfiable(id)))),
{
    if let Some(p) = proposed_of(db, id) {
        crate::sla::law_satisfiable_with_all_replicas(
            used[p.node@].memory, used[p.node@].cpu, available[p.node@].memory, available[p.node@].cpu, p.sla);
    }
}

} // verus!
