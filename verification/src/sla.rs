//! Service level agreements as the node's logic reads them, and the check
//! that a node can still host one.
use vstd::prelude::*;

verus! {

/// Identifier of an SLA (a UUID, as its 128-bit value).
pub type SlaId = u128;

/// Identifier of a fog node (a UUID, as its 128-bit value).
pub type NodeId = u128;

/// Identifier of a bid (a UUID, as its 128-bit value).
pub type BidId = u128;

/// A service level agreement submitted for a function.
///
/// Memory is counted in bytes and CPU in nanocpu (a billionth of a core).
/// The latency bound and the duration are the bit patterns of the `f64`
/// second counts that the client submitted: the library carries them and
/// never computes with them.
#[derive(Clone, Debug, PartialEq, Eq)]
pub struct Sla {
    pub id: SlaId,
    pub memory: u64,
    pub cpu: u64,
    pub latency_max_bits: u64,
    pub duration_bits: u64,
    pub max_replica: u64,
    pub input_max_size: u64,
    pub function_image: String,
    pub function_live_name: String,
}

/// Whether `used + demand * replicas` stays strictly under `available`.
pub open spec fn fits(used: int, demand: int, replicas: int, available: int) -> bool {
    used + demand * replicas < available
}

/// Whether a node with the given usage and capacity can take the SLA with
/// all of its replicas: both CPU and memory must stay strictly under the
/// available amounts.
pub open spec fn spec_satisfiable(
    used_ram: u64,
    used_cpu: u64,
    available_ram: u64,
    available_cpu: u64,
    sla: Sla,
) -> bool {
    &&& fits(used_cpu as int, sla.cpu as int, sla.max_replica as int, available_cpu as int)
    &&& fits(used_ram as int, sla.memory as int, sla.max_replica as int, available_ram as int)
}

fn fits_exec(used: u64, demand: u64, replicas: u64, available: u64) -> (r: bool)
    ensures
        r == fits(used as int, demand as int, replicas as int, available as int),
{
    let d = demand as u128;
    let k = replicas as u128;
    assert(d * k <= 0xffff_ffff_ffff_ffffu128 * 0xffff_ffff_ffff_ffffu128) by (nonlinear_arith)
        requires
            d <= 0xffff_ffff_ffff_ffffu128,
            k <= 0xffff_ffff_ffff_ffffu128,
    ;
    let total = used as u128 + d * k;
    total < available as u128
}

/// Check if the SLA is satisfiable by the node designated by its usage and
/// its capacity.
pub fn satisfiability_check(
    used_ram: u64,
    used_cpu: u64,
    available_ram: u64,
    available_cpu: u64,
    sla: &Sla,
) -> (ok: bool)
    ensures
        ok == spec_satisfiable(used_ram, used_cpu, available_ram, available_cpu, *sla),
        ok <==> (used_cpu + sla.cpu * sla.max_replica < available_cpu && used_ram + sla.memory * sla.max_replica < available_ram),
{
    let cpu_ok = fits_exec(used_cpu, sla.cpu, sla.max_replica, available_cpu);
    let ram_ok = fits_exec(used_ram, sla.memory, sla.max_replica, available_ram);
    cpu_ok && ram_ok
}

/// An SLA is satisfiable on a node exactly when, with all of its replicas,
/// it keeps both the node's CPU and its memory strictly under what the node
/// offers: one resource over (or at) its limit is enough to refuse it.
pub proof fn law_satisfiable_with_all_replicas(used_ram: u64, used_cpu: u64, available_ram: u64, available_cpu: u64, sla: Sla)
    ensures
        spec_satisfiable(used_ram, used_cpu, available_ram, available_cpu, sla)
            <==> (used_cpu + sla.cpu * sla.max_replica < available_cpu && used_ram + sla.memory * sla.max_replica < available_ram),
        used_cpu + sla.cpu * sla.max_replica >= available_cpu ==> !spec_satisfiable(used_ram, used_cpu, available_ram, available_cpu, sla),
        used_ram + sla.memory * sla.max_replica >= available_ram ==> !spec_satisfiable(used_ram, used_cpu, available_ram, available_cpu, sla),
{
}

} // verus!
