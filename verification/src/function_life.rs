//! The life of a paid function: paying books its unprovisioning for when
//! its SLA ends, and the booking, once it fires, finishes the function and
//! gives its resources back.
use vstd::prelude::*;
use crate::concurrent_map::Resources;
use crate::cron::{Cron, Task, TaskEntry, UnprovisionFunction, fires_at, law_finished_functions_leave_the_plan, pending, tasks_not_for};
use crate::function::{Function, FunctionError, law_finish_undoes_payment, minus, plus, spec_payment};
use crate::function_tracking::{finishable_of, provisioned_of, removable_of};
use crate::records::{Finishable, Paid, RemovableFunctionRecord, States};
use crate::sla::SlaId;

verus! {

/// The booking that paying for `id` makes: unprovision the function from
/// its cluster node `node`, `duration_ms` after `created_at`.
pub open spec fn unprovision_booking(id: SlaId, node: String, created_at: i64, duration_ms: i64) -> TaskEntry {
    TaskEntry { task: Task::UnprovisionFunction(UnprovisionFunction { sla: id, node }), created_at, duration_ms }
}

/// Accept the payment of the proposal recorded for `id` (as
/// `Function::pay_function`) and, when it is accepted, book the
/// unprovisioning of the function on its cluster node, scheduled at
/// `created_at` to fire after `duration_ms`, the SLA's duration. A refused
/// payment books nothing.
pub fn pay_function(function: &mut Function, cron: &mut Cron, id: SlaId, created_at: i64, duration_ms: i64) -> (r: Result<Paid, FunctionError>)
    requires
        old(function).wf(),
    ensures
        final(function).wf(),
        r == spec_payment(old(function).records(), old(function).used(), old(function).available(), id),
        r matches Ok(paid) ==> {
            &&& final(function).records() == old(function).records().insert(id, States::Paid(paid))
            &&& final(function).used() == old(function).used().insert(
                paid.node@,
                plus(old(function).used()[paid.node@], paid.sla.memory, paid.sla.cpu),
            )
            &&& final(cron).tasks() == old(cron).tasks().push(unprovision_booking(id, paid.node, created_at, duration_ms))
        },
        r is Err ==> {
            &&& final(function).records() == old(function).records()
            &&& final(function).used() == old(function).used()
            &&& final(cron).tasks() == old(cron).tasks()
        },
        final(function).available() == old(function).available(),
        final(function).nodes() == old(function).nodes(),
        final(cron).period_bits() == old(cron).period_bits(),
{
    let paid = match function.pay_function(id) {
        Ok(p) => p,
        Err(e) => return Err(e),
    };
    let task = Task::UnprovisionFunction(UnprovisionFunction { sla: id, node: paid.node.clone() });
    cron.add_oneshot(task, created_at, duration_ms);
    Ok(paid)
}

/// What the booking does when it fires: the oldest booking is dropped and
/// the function of `id` is finished (as `Function::finish_function`), its
/// removal record returned when it was deployed.
pub fn unprovision(function: &mut Function, cron: &mut Cron, id: SlaId) -> (r: Result<Option<RemovableFunctionRecord>, FunctionError>)
    requires
        old(function).wf(),
    ensures
        final(function).wf(),
        old(cron).tasks().len() == 0 ==> final(cron).tasks() == old(cron).tasks(),
        old(cron).tasks().len() > 0 ==> final(cron).tasks() == old(cron).tasks().drop_first(),
        final(cron).period_bits() == old(cron).period_bits(),
        finishable_of(old(function).records(), id) is None ==> {
            &&& r == Err::<Option<RemovableFunctionRecord>, FunctionError>(FunctionError::NotFinishable(id))
            &&& final(function).records() == old(function).records()
            &&& final(function).used() == old(function).used()
        },
        finishable_of(old(function).records(), id) matches Some(f) ==> {
            let n = f.spec_node()@;
            &&& r == Ok::<Option<RemovableFunctionRecord>, FunctionError>(removable_of(old(function).records(), id))
            &&& final(function).records() == old(function).records().insert(id, States::Finished(f.spec_to_finished()))
            &&& old(function).used().dom().contains(n) ==> final(function).used() == old(function).used().insert(
                n,
                minus(old(function).used()[n], f.spec_sla().memory, f.spec_sla().cpu),
            )
            &&& !old(function).used().dom().contains(n) ==> final(function).used() == old(function).used()
        },
        final(function).available() == old(function).available(),
        final(function).nodes() == old(function).nodes(),
{
    let _fired = cron.oneshot_fired();
    function.finish_function(id)
}

/// A paid function is released when its booking fires: paying books the
/// unprovisioning of the function on its node, which then stands last in
/// the plan of utilisation with the paid SLA and the time it fires; the
/// paid record can be finished; finishing it gives the node back exactly
/// what the payment took; and once finished, the function leaves the plan.
pub proof fn law_paid_functions_are_released(
    db: Map<SlaId, States>,
    used: Map<Seq<char>, Resources>,
    available: Map<Seq<char>, Resources>,
    tasks: Seq<TaskEntry>,
    id: SlaId,
    created_at: i64,
    duration_ms: i64,
)
    requires
        spec_payment(db, used, available, id) is Ok,
    ensures
        ({
            let paid = spec_payment(db, used, available, id)->Ok_0;
            let n = paid.node@;
            let paid_db = db.insert(id, States::Paid(paid));
            let paid_used = used.insert(n, plus(used[n], paid.sla.memory, paid.sla.cpu));
            let booking = unprovision_booking(id, paid.node, created_at, duration_ms);
            let finished_db = paid_db.insert(id, States::Finished(Finishable::Paid(paid).spec_to_finished()));
            &&& pending(paid_db, tasks.push(booking)) == pending(paid_db, tasks).push((fires_at(booking), paid.sla, n))
            &&& finishable_of(paid_db, id) == Some(Finishable::Paid(paid))
            &&& paid_used.insert(n, minus(paid_used[n], paid.sla.memory, paid.sla.cpu)) == used
            &&& pending(finished_db, tasks.push(booking)) == pending(paid_db, tasks_not_for(tasks.push(booking), id))
        }),
{
    let paid = spec_payment(db, used, available, id)->Ok_0;
    let paid_db = db.insert(id, States::Paid(paid));
    let booking = unprovision_booking(id, paid.node, created_at, duration_ms);
    law_finish_undoes_payment(db, used, available, id);
    assert(tasks.push(booking).drop_last() =~= tasks);
    law_finished_functions_leave_the_plan(paid_db, tasks.push(booking), id, Finishable::Paid(paid).spec_to_finished());
}

/// What one check of a provisioned function's liveness leads to.
#[derive(Clone, Debug, PartialEq, Eq)]
pub enum LivenessStep {
    /// The function answered and is now live.
    Live,
    /// The check failed, and there is still time: check again later.
    Retry,
    /// The check failed and the time allowed has passed: the function was
    /// finished, with its removal record when it was deployed.
    GaveUp(Option<RemovableFunctionRecord>),
}

/// One step of waiting for a provisioned function to come alive. When the
/// platform says the function answers (`answered`) and it is provisioned,
/// it becomes live. Otherwise the check failed: it is tried again while
/// `elapsed_ms` has not passed `timeout_ms`, and after that the function is
/// finished (as `Function::finish_function`).
pub fn liveness_step(function: &mut Function, id: SlaId, answered: bool, elapsed_ms: u64, timeout_ms: u64) -> (r: Result<LivenessStep, FunctionError>)
    requires
        old(function).wf(),
    ensures
        final(function).wf(),
        answered && provisioned_of(old(function).records(), id) is Some ==> {
            &&& r == Ok::<LivenessStep, FunctionError>(LivenessStep::Live)
            &&& final(function).records() == old(function).records().insert(
                id,
                States::Live(provisioned_of(old(function).records(), id)->0.spec_to_live()),
            )
            &&& final(function).used() == old(function).used()
        },
        !(answered && provisioned_of(old(function).records(), id) is Some) && elapsed_ms <= timeout_ms ==> {
            &&& r == Ok::<LivenessStep, FunctionError>(LivenessStep::Retry)
            &&& final(function).records() == old(function).records()
            &&& final(function).used() == old(function).used()
        },
        !(answered && provisioned_of(old(function).records(), id) is Some) && elapsed_ms > timeout_ms ==> {
            &&& finishable_of(old(function).records(), id) is None ==> {
                &&& r == Err::<LivenessStep, FunctionError>(FunctionError::NotFinishable(id))
                &&& final(function).records() == old(function).records()
                &&& final(function).used() == old(function).used()
            }
            &&& finishable_of(old(function).records(), id) matches Some(f) ==> {
                let n = f.spec_node()@;
                &&& r == Ok::<LivenessStep, FunctionError>(LivenessStep::GaveUp(removable_of(old(function).records(), id)))
                &&& final(function).records() == old(function).records().insert(id, States::Finished(f.spec_to_finished()))
                &&& old(function).used().dom().contains(n) ==> final(function).used() == old(function).used().insert(
                    n,
                    minus(old(function).used()[n], f.spec_sla().memory, f.spec_sla().cpu),
                )
                &&& !old(function).used().dom().contains(n) ==> final(function).used() == old(function).used()
            }
        },
        final(function).available() == old(function).available(),
        final(function).nodes() == old(function).nodes(),
{
    if answered {
        match function.set_function_is_live(id) {
            Ok(()) => return Ok(LivenessStep::Live),
            Err(_) => {},
        }
    }
    if elapsed_ms <= timeout_ms {
        return Ok(LivenessStep::Retry);
    }
    match function.finish_function(id) {
        Ok(removable) => Ok(LivenessStep::GaveUp(removable)),
        Err(e) => Err(e),
    }
}

} // verus!
