//! The one-shot tasks the node has scheduled: the unprovisioning of each
//! paid function when its SLA comes to an end.
use vstd::prelude::*;
use std::collections::VecDeque;
use crate::function_tracking::{FunctionTracking, finishable_of};
use crate::records::{Finished, States};
use crate::sla::{Sla, SlaId};

verus! {

/// Unprovision the function of an SLA from a cluster node.
#[derive(Clone, Debug, PartialEq, Eq)]
pub struct UnprovisionFunction {
    pub sla: SlaId,
    pub node: String,
}

/// A task the node schedules.
#[derive(Clone, Debug, PartialEq, Eq)]
pub enum Task {
    UnprovisionFunction(UnprovisionFunction),
}

/// A scheduled task with the time it was scheduled at (microseconds since
/// the epoch, UTC) and how long after that it fires (milliseconds).
#[derive(Clone, Debug, PartialEq, Eq)]
pub struct TaskEntry {
    pub task: Task,
    pub created_at: i64,
    pub duration_ms: i64,
}

/// A function still to be unprovisioned: when it will be (microseconds
/// since the epoch, UTC), its SLA and its cluster node.
#[derive(Clone, Debug, PartialEq, Eq)]
pub struct UnprovisionEvent {
    pub timestamp: i128,
    pub sla: Sla,
    pub node: String,
}

/// When a booked task fires: its booking time plus its duration, in
/// microseconds.
pub open spec fn fires_at(e: TaskEntry) -> i128 {
    (e.created_at + e.duration_ms * 1000) as i128
}

/// The scheduler's book of one-shot tasks, oldest first.
///
/// `periodic_task_period_bits` is the bit pattern of the `f64` period, in
/// seconds, of the periodic tasks.
pub struct Cron {
    periodic_task_period_bits: u64,
    tasks: VecDeque<TaskEntry>,
}

impl Cron {
    pub closed spec fn tasks(&self) -> Seq<TaskEntry> {
        self.tasks@
    }

    pub closed spec fn period_bits(&self) -> u64 {
        self.periodic_task_period_bits
    }

    /// A scheduler with no task booked.
    pub fn new(periodic_task_period_bits: u64) -> (r: Cron)
        ensures
            r.tasks() == Seq::<TaskEntry>::empty(),
            r.period_bits() == periodic_task_period_bits,
    {
        Cron { periodic_task_period_bits, tasks: VecDeque::new() }
    }

    pub fn periodic_task_period_bits(&self) -> (r: u64)
        ensures
            r == self.period_bits(),
    {
        self.periodic_task_period_bits
    }

    /// Book a one-shot task, scheduled at `created_at` to fire
    /// `duration_ms` later, after the others.
    pub fn add_oneshot(&mut self, task: Task, created_at: i64, duration_ms: i64)
        ensures
            final(self).tasks() == old(self).tasks().push(TaskEntry { task, created_at, duration_ms }),
            final(self).period_bits() == old(self).period_bits(),
    {
        self.tasks.push_back(TaskEntry { task, created_at, duration_ms });
    }

    /// A one-shot task fired: the oldest booking is dropped.
    pub fn oneshot_fired(&mut self) -> (r: Option<TaskEntry>)
        ensures
            old(self).tasks().len() == 0 ==> r is None && final(self).tasks() == old(self).tasks(),
            old(self).tasks().len() > 0 ==> r == Some(old(self).tasks()[0]) && final(self).tasks() == old(self).tasks().drop_first(),
            final(self).period_bits() == old(self).period_bits(),
    {
        self.tasks.pop_front()
    }

    /// The booked unprovisionings whose function is still paid, provisioned
    /// or live, oldest first: when each fires, and the SLA and node recorded
    /// for it.
    pub fn get_utilisation_variations(&self, function_tracking: &FunctionTracking) -> (r: Vec<UnprovisionEvent>)
        ensures
            r@.map_values(|e: UnprovisionEvent| view_of_event(e)) == pending(function_tracking@, self.tasks()),
    {
        let mut ret: Vec<UnprovisionEvent> = Vec::new();
        let n = self.tasks.len();
        for j in 0..n
            invariant
                n == self.tasks().len(),
                ret@.map_values(|e: UnprovisionEvent| view_of_event(e)) == pending(function_tracking@, self.tasks().take(j as int)),
        {
            let entry = &self.tasks[j];
            assert(self.tasks().take(j + 1).drop_last() =~= self.tasks().take(j as int));
            assert(self.tasks().take(j + 1).last() == self.tasks()[j as int]);
            let ghost prev = ret@;
            match &entry.task {
                Task::UnprovisionFunction(u) => {
                    match function_tracking.get_finishable_sla(&u.sla) {
                        Some(sla) => {
                            let timestamp = entry.created_at as i128 + entry.duration_ms as i128 * 1000;
                            ret.push(UnprovisionEvent { timestamp, sla, node: u.node.clone() });
                            assert(ret@.map_values(|e: UnprovisionEvent| view_of_event(e)) =~= prev.map_values(|e: UnprovisionEvent| view_of_event(e)).push(view_of_event(ret@.last())));
                        },
                        None => {},
                    }
                },
            }
        }
        assert(self.tasks().take(n as int) =~= self.tasks());
        ret
    }
}

/// An event as plain values: when, which SLA, which node.
pub open spec fn view_of_event(e: UnprovisionEvent) -> (i128, Sla, Seq<char>) {
    (e.timestamp, e.sla, e.node@)
}

/// The events of the booked tasks whose function is still paid,
/// provisioned or live in `db`, in booking order.
pub open spec fn pending(db: Map<SlaId, States>, tasks: Seq<TaskEntry>) -> Seq<(i128, Sla, Seq<char>)>
    decreases tasks.len(),
{
    if tasks.len() == 0 {
        Seq::empty()
    } else {
        let e = tasks.last();
        let rest = pending(db, tasks.drop_last());
        match e.task {
            Task::UnprovisionFunction(u) => match finishable_of(db, u.sla) {
                Some(f) => rest.push((fires_at(e), f.spec_sla(), u.node@)),
                None => rest,
            },
        }
    }
}

/// The booked tasks that are not about SLA `id`, in booking order.
pub open spec fn tasks_not_for(tasks: Seq<TaskEntry>, id: SlaId) -> Seq<TaskEntry>
    decreases tasks.len(),
{
    if tasks.len() == 0 {
        Seq::empty()
    } else {
        let rest = tasks_not_for(tasks.drop_last(), id);
        match tasks.last().task {
            Task::UnprovisionFunction(u) => if u.sla == id { rest } else { rest.push(tasks.last()) },
        }
    }
}

/// Once the function of SLA `id` is finished, it no longer weighs on the
/// plan of utilisation: the pending events are those of the other
/// bookings, as they were.
pub proof fn law_finished_functions_leave_the_plan(db: Map<SlaId, States>, tasks: Seq<TaskEntry>, id: SlaId, finished: Finished)
    ensures
        pending(db.insert(id, States::Finished(finished)), tasks) == pending(db, tasks_not_for(tasks, id)),
    decreases tasks.len(),
{
    if tasks.len() > 0 {
        law_finished_functions_leave_the_plan(db, tasks.drop_last(), id, finished);
        let e = tasks.last();
        match e.task {
            Task::UnprovisionFunction(u) => {
                if u.sla != id {
                    let kept = tasks_not_for(tasks.drop_last(), id).push(e);
                    assert(kept.drop_last() =~= tasks_not_for(tasks.drop_last(), id));
                }
            },
        }
    }
}

/// The SLA of a function still running on the node (paid, provisioned or
/// live), read off its record.
pub open spec fn running_sla(s: States) -> Option<Sla> {
    match s {
        States::Paid(r) => Some(r.sla),
        States::Provisioned(r) => Some(r.sla),
        States::Live(r) => Some(r.sla),
        States::Proposed(_) => None,
        States::Finished(_) => None,
    }
}

/// The plan of utilisation lists exactly the bookings of the functions
/// still running: every booking whose SLA is recorded as paid, provisioned
/// or live gives an event with that SLA, its node and the time it fires
/// (booking time plus its duration); every event of the plan is such a
/// booking's; and the plan never holds more events than there are
/// bookings.
pub proof fn law_plan_lists_running_functions(db: Map<SlaId, States>, tasks: Seq<TaskEntry>)
    ensures
        pending(db, tasks).len() <= tasks.len(),
        forall|i: int| 0 <= i < tasks.len() ==> ({
            let e = #[trigger] tasks[i];
            let u = e.task->UnprovisionFunction_0;
            db.dom().contains(u.sla) && running_sla(db[u.sla]) is Some ==> pending(db, tasks).contains(
                ((e.created_at + e.duration_ms * 1000) as i128, running_sla(db[u.sla])->0, u.node@),
            )
        }),
        forall|k: int| #![trigger pending(db, tasks)[k]] 0 <= k < pending(db, tasks).len() ==> exists|i: int| 0 <= i < tasks.len() && ({
            let e = #[trigger] tasks[i];
            let u = e.task->UnprovisionFunction_0;
            &&& db.dom().contains(u.sla)
            &&& running_sla(db[u.sla]) == Some(pending(db, tasks)[k].1)
            &&& pending(db, tasks)[k] == ((e.created_at + e.duration_ms * 1000) as i128, pending(db, tasks)[k].1, u.node@)
        }),
    decreases tasks.len(),
{
    if tasks.len() > 0 {
        let prev = tasks.drop_last();
        law_plan_lists_running_functions(db, prev);
        let rest = pending(db, prev);
        let all = pending(db, tasks);
        let e = tasks.last();
        let u = e.task->UnprovisionFunction_0;
        assert(e.task == Task::UnprovisionFunction(u));
        assert forall|i: int| 0 <= i < tasks.len() implies ({
            let e = #[trigger] tasks[i];
            let u = e.task->UnprovisionFunction_0;
            db.dom().contains(u.sla) && running_sla(db[u.sla]) is Some ==> all.contains(
                ((e.created_at + e.duration_ms * 1000) as i128, running_sla(db[u.sla])->0, u.node@),
            )
        }) by {
            let ei = tasks[i];
            let ui = ei.task->UnprovisionFunction_0;
            assert(ei.task == Task::UnprovisionFunction(ui));
            if db.dom().contains(ui.sla) && running_sla(db[ui.sla]) is Some {
                let ev = ((ei.created_at + ei.duration_ms * 1000) as i128, running_sla(db[ui.sla])->0, ui.node@);
                if i == tasks.len() - 1 {
                    assert(all.last() == ev);
                    assert(all[all.len() - 1] == ev);
                } else {
                    assert(prev[i] == tasks[i]);
                    assert(rest.contains(ev));
                    let k = choose|k: int| 0 <= k < rest.len() && rest[k] == ev;
                    assert(all[k] == rest[k]);
                }
            }
        }
        assert forall|k: int| #![trigger all[k]] 0 <= k < all.len() implies exists|i: int| 0 <= i < tasks.len() && ({
            let e = #[trigger] tasks[i];
            let u = e.task->UnprovisionFunction_0;
            &&& db.dom().contains(u.sla)
            &&& running_sla(db[u.sla]) == Some(all[k].1)
            &&& all[k] == ((e.created_at + e.duration_ms * 1000) as i128, all[k].1, u.node@)
        }) by {
            if k < rest.len() {
                assert(all[k] == rest[k]);
                let i = choose|i: int| 0 <= i < prev.len() && ({
                    let e = #[trigger] prev[i];
                    let u = e.task->UnprovisionFunction_0;
                    &&& db.dom().contains(u.sla)
                    &&& running_sla(db[u.sla]) == Some(rest[k].1)
                    &&& rest[k] == ((e.created_at + e.duration_ms * 1000) as i128, rest[k].1, u.node@)
                });
                assert(tasks[i] == prev[i]);
            } else {
                assert(tasks[tasks.len() - 1] == e);
            }
        }
    }
}

} // verus!
