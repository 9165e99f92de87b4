//! The node's database of function records, one per SLA, and the
//! transitions of their lifecycle: proposed, paid, provisioned, live,
//! finished.
use vstd::prelude::*;
use crate::concurrent_map::{
    LifecycleMap, lifecycle_entries, lifecycle_map_get, lifecycle_map_insert, lifecycle_map_new,
};
use crate::records::{
    Finishable, Finished, Live, Paid, Proposed, Provisioned, RemovableFunctionRecord, States,
};
use crate::sla::{Sla, SlaId};

verus! {

/// The state recorded for `id`, if any.
pub open spec fn state_of(db: Map<SlaId, States>, id: SlaId) -> Option<States> {
    if db.dom().contains(id) {
        Some(db[id])
    } else {
        None
    }
}

pub open spec fn proposed_of(db: Map<SlaId, States>, id: SlaId) -> Option<Proposed> {
    match state_of(db, id) {
        Some(States::Proposed(r)) => Some(r),
        _ => None,
    }
}

pub open spec fn paid_of(db: Map<SlaId, States>, id: SlaId) -> Option<Paid> {
    match state_of(db, id) {
        Some(States::Paid(r)) => Some(r),
        _ => None,
    }
}

pub open spec fn provisioned_of(db: Map<SlaId, States>, id: SlaId) -> Option<Provisioned> {
    match state_of(db, id) {
        Some(States::Provisioned(r)) => Some(r),
        _ => None,
    }
}

pub open spec fn live_of(db: Map<SlaId, States>, id: SlaId) -> Option<Live> {
    match state_of(db, id) {
        Some(States::Live(r)) => Some(r),
        _ => None,
    }
}

pub open spec fn finished_of(db: Map<SlaId, States>, id: SlaId) -> Option<Finished> {
    match state_of(db, id) {
        Some(States::Finished(r)) => Some(r),
        _ => None,
    }
}

/// The record of `id` if it is paid, provisioned or live.
pub open spec fn finishable_of(db: Map<SlaId, States>, id: SlaId) -> Option<Finishable> {
    match state_of(db, id) {
        Some(States::Paid(r)) => Some(Finishable::Paid(r)),
        Some(States::Provisioned(r)) => Some(Finishable::Provisioned(r)),
        Some(States::Live(r)) => Some(Finishable::Live(r)),
        _ => None,
    }
}

/// What is needed to remove the function of `id` from the FaaS platform,
/// if it was deployed (provisioned or live).
pub open spec fn removable_of(db: Map<SlaId, States>, id: SlaId) -> Option<RemovableFunctionRecord> {
    match state_of(db, id) {
        Some(States::Provisioned(r)) => Some(RemovableFunctionRecord { function_name: r.function_name }),
        Some(States::Live(r)) => Some(RemovableFunctionRecord { function_name: r.function_name }),
        _ => None,
    }
}

/// The database after storing `record` for `id`, which happens only when
/// `id` is recorded in the state that `allowed` accepts.
pub open spec fn advanced(db: Map<SlaId, States>, id: SlaId, allowed: bool, record: States) -> Map<SlaId, States> {
    if db.dom().contains(id) && allowed {
        db.insert(id, record)
    } else {
        db
    }
}

/// The database of function records of the node.
pub struct FunctionTracking {
    database: LifecycleMap,
}

impl View for FunctionTracking {
    type V = Map<SlaId, States>;

    closed spec fn view(&self) -> Map<SlaId, States> {
        lifecycle_entries(self.database)
    }
}

impl Default for FunctionTracking {
    fn default() -> (r: Self)
        ensures
            r@.dom() == Set::<SlaId>::empty(),
    {
        FunctionTracking { database: lifecycle_map_new() }
    }
}

impl FunctionTracking {
    /// An empty database.
    pub fn new() -> (r: Self)
        ensures
            r@.dom() == Set::<SlaId>::empty(),
    {
        FunctionTracking { database: lifecycle_map_new() }
    }

    /// Record a new proposal under the id of its SLA, replacing whatever was
    /// recorded for that id.
    pub fn insert(&mut self, record: Proposed)
        ensures
            final(self)@ == old(self)@.insert(record.sla.id, States::Proposed(record)),
    {
        let id = record.sla.id;
        lifecycle_map_insert(&mut self.database, id, States::Proposed(record));
    }

    pub fn get_proposed(&self, id: &SlaId) -> (r: Option<Proposed>)
        ensures
            r == proposed_of(self@, *id),
    {
        match lifecycle_map_get(&self.database, *id) {
            Some(States::Proposed(x)) => Some(x),
            _ => None,
        }
    }

    pub fn get_paid(&self, id: &SlaId) -> (r: Option<Paid>)
        ensures
            r == paid_of(self@, *id),
    {
        match lifecycle_map_get(&self.database, *id) {
            Some(States::Paid(x)) => Some(x),
            _ => None,
        }
    }

    pub fn get_provisioned(&self, id: &SlaId) -> (r: Option<Provisioned>)
        ensures
            r == provisioned_of(self@, *id),
    {
        match lifecycle_map_get(&self.database, *id) {
            Some(States::Provisioned(x)) => Some(x),
            _ => None,
        }
    }

    pub fn get_finished(&self, id: &SlaId) -> (r: Option<Finished>)
        ensures
            r == finished_of(self@, *id),
    {
        match lifecycle_map_get(&self.database, *id) {
            Some(States::Finished(x)) => Some(x),
            _ => None,
        }
    }

    /// Store the paid record of `id`, if `id` is proposed; otherwise nothing
    /// changes.
    pub fn save_paid(&mut self, id: &SlaId, record: Paid)
        ensures
            final(self)@ == advanced(old(self)@, *id, proposed_of(old(self)@, *id) is Some, States::Paid(record)),
    {
        match lifecycle_map_get(&self.database, *id) {
            Some(States::Proposed(_)) => {
                lifecycle_map_insert(&mut self.database, *id, States::Paid(record));
            },
            _ => {},
        }
    }

    /// Store the provisioned record of `id`, if `id` is paid; otherwise
    /// nothing changes.
    pub fn save_provisioned(&mut self, id: &SlaId, record: Provisioned)
        ensures
            final(self)@ == advanced(old(self)@, *id, paid_of(old(self)@, *id) is Some, States::Provisioned(record)),
    {
        match lifecycle_map_get(&self.database, *id) {
            Some(States::Paid(_)) => {
                lifecycle_map_insert(&mut self.database, *id, States::Provisioned(record));
            },
            _ => {},
        }
    }

    /// Store the live record of `id`, if `id` is provisioned; otherwise
    /// nothing changes.
    pub fn save_live(&mut self, id: &SlaId, record: Live)
        ensures
            final(self)@ == advanced(old(self)@, *id, provisioned_of(old(self)@, *id) is Some, States::Live(record)),
    {
        match lifecycle_map_get(&self.database, *id) {
            Some(States::Provisioned(_)) => {
                lifecycle_map_insert(&mut self.database, *id, States::Live(record));
            },
            _ => {},
        }
    }

    /// Store the finished record of `id`, whatever state `id` is in, if it is
    /// recorded at all.
    pub fn save_finished(&mut self, id: &SlaId, record: Finished)
        ensures
            final(self)@ == advanced(old(self)@, *id, true, States::Finished(record)),
    {
        match lifecycle_map_get(&self.database, *id) {
            Some(_) => {
                lifecycle_map_insert(&mut self.database, *id, States::Finished(record));
            },
            None => {},
        }
    }

    pub fn get_removable(&self, id: &SlaId) -> (r: Option<RemovableFunctionRecord>)
        ensures
            r == removable_of(self@, *id),
    {
        match lifecycle_map_get(&self.database, *id) {
            Some(States::Live(x)) => Some(RemovableFunctionRecord::from_live(x)),
            Some(States::Provisioned(x)) => Some(RemovableFunctionRecord::from_provisioned(x)),
            _ => None,
        }
    }

    /// The SLA of `id` if its function is paid, provisioned or live.
    pub fn get_finishable_sla(&self, id: &SlaId) -> (r: Option<Sla>)
        ensures
            r == (match finishable_of(self@, *id) {
                Some(f) => Some(f.spec_sla()),
                None => None::<Sla>,
            }),
    {
        match lifecycle_map_get(&self.database, *id) {
            Some(States::Live(Live { sla, .. })) => Some(sla),
            Some(States::Paid(Paid { sla, .. })) => Some(sla),
            Some(States::Provisioned(Provisioned { sla, .. })) => Some(sla),
            _ => None,
        }
    }

    pub fn get_finishable(&self, id: &SlaId) -> (r: Option<Finishable>)
        ensures
            r == finishable_of(self@, *id),
    {
        match lifecycle_map_get(&self.database, *id) {
            Some(States::Paid(x)) => Some(Finishable::Paid(x)),
            Some(States::Provisioned(x)) => Some(Finishable::Provisioned(x)),
            Some(States::Live(x)) => Some(Finishable::Live(x)),
            _ => None,
        }
    }
}

/// A proposal just recorded is read back as the proposal of its SLA.
pub proof fn law_insert_then_get_proposed(db: Map<SlaId, States>, record: Proposed)
    ensures
        proposed_of(db.insert(record.sla.id, States::Proposed(record)), record.sla.id) == Some(record),
{
}

/// The rank of a state along the lifecycle.
pub open spec fn stage(s: States) -> int {
    match s {
        States::Proposed(_) => 0,
        States::Paid(_) => 1,
        States::Provisioned(_) => 2,
        States::Live(_) => 3,
        States::Finished(_) => 4,
    }
}

/// Each save moves a record one step along proposed, paid, provisioned,
/// live (finishing may come from any state), and is read back right after;
/// a save that does not apply changes nothing.
pub proof fn law_saves_follow_the_lifecycle(db: Map<SlaId, States>, id: SlaId, paid: Paid, provisioned: Provisioned, live: Live, finished: Finished)
    ensures
        proposed_of(db, id) is Some ==> paid_of(advanced(db, id, true, States::Paid(paid)), id) == Some(paid)
            && stage(advanced(db, id, true, States::Paid(paid))[id]) == stage(db[id]) + 1,
        paid_of(db, id) is Some ==> provisioned_of(advanced(db, id, true, States::Provisioned(provisioned)), id) == Some(provisioned)
            && stage(advanced(db, id, true, States::Provisioned(provisioned))[id]) == stage(db[id]) + 1,
        provisioned_of(db, id) is Some ==> live_of(advanced(db, id, true, States::Live(live)), id) == Some(live)
            && stage(advanced(db, id, true, States::Live(live))[id]) == stage(db[id]) + 1,
        db.dom().contains(id) ==> finished_of(advanced(db, id, true, States::Finished(finished)), id) == Some(finished),
        advanced(db, id, false, States::Paid(paid)) == db,
        !db.dom().contains(id) ==> advanced(db, id, true, States::Finished(finished)) == db,
{
}

} // verus!
