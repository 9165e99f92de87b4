//! What the functions running on the cluster nodes are committed to: the
//! sum, over the records that are paid, provisioned or live on a node, of
//! the memory and CPU their SLAs ask for.
use vstd::prelude::*;
use crate::records::States;
use crate::sla::SlaId;

verus! {

/// The sum of `f` over a finite set of SLA ids.
pub open spec fn sum_over(keys: Set<SlaId>, f: spec_fn(SlaId) -> int) -> int
    decreases keys.len(),
    when keys.finite()
{
    if keys.len() == 0 {
        0
    } else {
        let k = keys.choose();
        f(k) + sum_over(keys.remove(k), f)
    }
}

/// What a record asks of `node`: the memory (or, when `cpu` holds, the CPU)
/// of its SLA if it is paid, provisioned or live on that node, else zero.
pub open spec fn share(s: States, node: Seq<char>, cpu: bool) -> int {
    match s {
        States::Paid(r) => if r.node@ == node { if cpu { r.sla.cpu as int } else { r.sla.memory as int } } else { 0 },
        States::Provisioned(r) => if r.node@ == node { if cpu { r.sla.cpu as int } else { r.sla.memory as int } } else { 0 },
        States::Live(r) => if r.node@ == node { if cpu { r.sla.cpu as int } else { r.sla.memory as int } } else { 0 },
        _ => 0,
    }
}

/// The memory (or CPU) that the records of `db` commit on `node`.
pub open spec fn committed(db: Map<SlaId, States>, node: Seq<char>, cpu: bool) -> int {
    sum_over(db.dom(), |k: SlaId| share(db[k], node, cpu))
}

proof fn lemma_choose_in(keys: Set<SlaId>)
    requires
        keys.finite(),
        keys.len() > 0,
    ensures
        keys.contains(keys.choose()),
{
    if keys.is_empty() {
        assert(keys =~= Set::<SlaId>::empty());
    }
}

/// Taking one key out of the sum.
pub proof fn lemma_sum_remove(keys: Set<SlaId>, f: spec_fn(SlaId) -> int, k: SlaId)
    requires
        keys.finite(),
        keys.contains(k),
    ensures
        sum_over(keys, f) == f(k) + sum_over(keys.remove(k), f),
    decreases keys.len(),
{
    lemma_choose_in(keys);
    let c = keys.choose();
    if c != k {
        lemma_sum_remove(keys.remove(c), f, k);
        lemma_sum_remove(keys.remove(k), f, c);
        assert(keys.remove(c).remove(k) =~= keys.remove(k).remove(c));
    }
}

/// Two functions that agree on the keys have the same sum.
pub proof fn lemma_sum_congruent(keys: Set<SlaId>, f: spec_fn(SlaId) -> int, g: spec_fn(SlaId) -> int)
    requires
        keys.finite(),
        forall|k: SlaId| keys.contains(k) ==> f(k) == g(k),
    ensures
        sum_over(keys, f) == sum_over(keys, g),
    decreases keys.len(),
{
    if keys.len() > 0 {
        lemma_choose_in(keys);
        let c = keys.choose();
        lemma_sum_congruent(keys.remove(c), f, g);
    }
}

/// A sum of non-negative terms is at least each of its terms.
pub proof fn lemma_sum_bounds(keys: Set<SlaId>, f: spec_fn(SlaId) -> int)
    requires
        keys.finite(),
        forall|k: SlaId| keys.contains(k) ==> f(k) >= 0,
    ensures
        sum_over(keys, f) >= 0,
        forall|k: SlaId| keys.contains(k) ==> sum_over(keys, f) >= f(k),
    decreases keys.len(),
{
    if keys.len() > 0 {
        lemma_choose_in(keys);
        let c = keys.choose();
        lemma_sum_bounds(keys.remove(c), f);
        assert forall|k: SlaId| keys.contains(k) implies sum_over(keys, f) >= f(k) by {
            if k != c {
                assert(keys.remove(c).contains(k));
            }
        }
    }
}

/// Storing `s` under `id` changes what is committed on a node by what `s`
/// asks of it, less what the record it replaces asked.
pub proof fn lemma_committed_insert(db: Map<SlaId, States>, id: SlaId, s: States, node: Seq<char>, cpu: bool)
    requires
        db.dom().finite(),
    ensures
        committed(db.insert(id, s), node, cpu) == committed(db, node, cpu) + share(s, node, cpu)
            - (if db.dom().contains(id) { share(db[id], node, cpu) } else { 0 }),
{
    let db2 = db.insert(id, s);
    let f = |k: SlaId| share(db[k], node, cpu);
    let f2 = |k: SlaId| share(db2[k], node, cpu);
    lemma_sum_remove(db2.dom(), f2, id);
    assert(db2.dom().remove(id) =~= db.dom().remove(id));
    lemma_sum_congruent(db.dom().remove(id), f2, f);
    if db.dom().contains(id) {
        lemma_sum_remove(db.dom(), f, id);
    } else {
        assert(db.dom().remove(id) =~= db.dom());
    }
}

/// What one record asks of a node is covered by what all records commit
/// there, and nothing committed is negative.
pub proof fn lemma_committed_covers(db: Map<SlaId, States>, id: SlaId, node: Seq<char>, cpu: bool)
    requires
        db.dom().finite(),
        db.dom().contains(id),
    ensures
        committed(db, node, cpu) >= share(db[id], node, cpu),
        share(db[id], node, cpu) >= 0,
{
    let f = |k: SlaId| share(db[k], node, cpu);
    lemma_sum_bounds(db.dom(), f);
    assert(f(id) == share(db[id], node, cpu));
}

/// Nothing is committed by an empty database.
pub proof fn lemma_committed_empty(db: Map<SlaId, States>, node: Seq<char>, cpu: bool)
    requires
        db.dom() == Set::<SlaId>::empty(),
    ensures
        committed(db, node, cpu) == 0,
{
}

} // verus!
