//! The traffic-statistics function: how many objects of each kind a camera
//! frame holds.
use vstd::prelude::*;

verus! {

/// The kinds of objects seen on the road.
#[derive(Clone, Copy, Debug, PartialEq, Eq, Hash)]
pub enum ObjectType {
    AMBULANCE,
    CAR,
    BICYCLE,
    PEDESTRIAN,
    TRAIN,
    TRUCK,
    VAN,
    MOTORCYCLE,
    ANIMAL,
}

/// An object seen in a frame, with its box.
#[derive(Clone, Copy, Debug, PartialEq, Eq)]
pub struct Object {
    pub object_type: ObjectType,
    pub position_x: u16,
    pub position_y: u16,
    pub bound_x: u16,
    pub bound_y: u16,
}

/// The position of a kind in the list of kinds.
pub open spec fn kind_index(t: ObjectType) -> int {
    match t {
        ObjectType::AMBULANCE => 0,
        ObjectType::CAR => 1,
        ObjectType::BICYCLE => 2,
        ObjectType::PEDESTRIAN => 3,
        ObjectType::TRAIN => 4,
        ObjectType::TRUCK => 5,
        ObjectType::VAN => 6,
        ObjectType::MOTORCYCLE => 7,
        ObjectType::ANIMAL => 8,
    }
}

/// How many objects of kind `t` are in `objects`.
pub open spec fn count_of(objects: Seq<Object>, t: ObjectType) -> nat
    decreases objects.len(),
{
    if objects.len() == 0 {
        0
    } else {
        count_of(objects.drop_last(), t) + if objects.last().object_type == t { 1nat } else { 0nat }
    }
}

fn index_of_kind(t: ObjectType) -> (r: usize)
    ensures
        r == kind_index(t),
{
    match t {
        ObjectType::AMBULANCE => 0,
        ObjectType::CAR => 1,
        ObjectType::BICYCLE => 2,
        ObjectType::PEDESTRIAN => 3,
        ObjectType::TRAIN => 4,
        ObjectType::TRUCK => 5,
        ObjectType::VAN => 6,
        ObjectType::MOTORCYCLE => 7,
        ObjectType::ANIMAL => 8,
    }
}

fn kind_at(i: usize) -> (r: ObjectType)
    requires
        i < 9,
    ensures
        kind_index(r) == i,
{
    if i == 0 {
        ObjectType::AMBULANCE
    } else if i == 1 {
        ObjectType::CAR
    } else if i == 2 {
        ObjectType::BICYCLE
    } else if i == 3 {
        ObjectType::PEDESTRIAN
    } else if i == 4 {
        ObjectType::TRAIN
    } else if i == 5 {
        ObjectType::TRUCK
    } else if i == 6 {
        ObjectType::VAN
    } else if i == 7 {
        ObjectType::MOTORCYCLE
    } else {
        ObjectType::ANIMAL
    }
}

proof fn lemma_count_bounded(objects: Seq<Object>, t: ObjectType)
    ensures
        count_of(objects, t) <= objects.len(),
    decreases objects.len(),
{
    if objects.len() > 0 {
        lemma_count_bounded(objects.drop_last(), t);
    }
}

/// Count the objects of each kind present in the frame: one entry per kind
/// seen, with its count, in the order of the kinds. (A frame of more than
/// `u32::MAX` objects cannot be counted in 32 bits and is not accepted.)
pub fn count_objects(objects: &Vec<Object>) -> (r: Vec<(ObjectType, u32)>)
    requires
        objects@.len() <= u32::MAX,
    ensures
        forall|i: int| 0 <= i < r@.len() ==> #[trigger] r@[i].1 as nat == count_of(objects@, r@[i].0) && r@[i].1 > 0,
        forall|i: int, j: int| 0 <= i < j < r@.len() ==> kind_index(r@[i].0) < kind_index(r@[j].0),
        forall|t: ObjectType| count_of(objects@, t) > 0 ==> exists|i: int| 0 <= i < r@.len() && #[trigger] r@[i].0 == t,
{
    let mut counts: Vec<u32> = vec![0, 0, 0, 0, 0, 0, 0, 0, 0];
    let n = objects.len();
    for i in 0..n
        invariant
            n == objects@.len(),
            n <= u32::MAX,
            counts@.len() == 9,
            forall|t: ObjectType| #[trigger] counts@[kind_index(t)] as nat == count_of(objects@.take(i as int), t),
    {
        let k = index_of_kind(objects[i].object_type);
        proof {
            lemma_count_bounded(objects@.take(i as int), objects@[i as int].object_type);
            assert(objects@.take(i + 1).drop_last() =~= objects@.take(i as int));
        }
        let c = counts[k];
        counts.set(k, c + 1);
        assert forall|t: ObjectType| #[trigger] counts@[kind_index(t)] as nat == count_of(objects@.take(i + 1), t) by {
            assert(objects@.take(i + 1).last() == objects@[i as int]);
            if kind_index(t) == k as int {
                assert(t == objects@[i as int].object_type);
            }
        }
    }
    assert(objects@.take(n as int) =~= objects@);
    let mut r: Vec<(ObjectType, u32)> = Vec::new();
    for k in 0..9
        invariant
            counts@.len() == 9,
            forall|t: ObjectType| #[trigger] counts@[kind_index(t)] as nat == count_of(objects@, t),
            forall|i: int| 0 <= i < r@.len() ==> #[trigger] r@[i].1 as nat == count_of(objects@, r@[i].0) && r@[i].1 > 0,
            forall|i: int| 0 <= i < r@.len() ==> kind_index(#[trigger] r@[i].0) < k,
            forall|i: int, j: int| 0 <= i < j < r@.len() ==> kind_index(r@[i].0) < kind_index(r@[j].0),
            forall|t: ObjectType| kind_index(t) < k && count_of(objects@, t) > 0 ==> exists|i: int| 0 <= i < r@.len() && #[trigger] r@[i].0 == t,
    {
        let t = kind_at(k);
        let ghost prev = r@;
        if counts[k] > 0 {
            r.push((t, counts[k]));
            assert(r@[r@.len() - 1].0 == t);
        }
        assert forall|u: ObjectType| kind_index(u) < k + 1 && count_of(objects@, u) > 0 implies exists|i: int| 0 <= i < r@.len() && #[trigger] r@[i].0 == u by {
            if kind_index(u) == k as int {
                assert(u == t);
                assert(r@[r@.len() - 1].0 == t);
            } else {
                let i = choose|i: int| 0 <= i < prev.len() && #[trigger] prev[i].0 == u;
                assert(r@[i] == prev[i]);
            }
        }
    }
    assert forall|t: ObjectType| count_of(objects@, t) > 0 implies exists|i: int| 0 <= i < r@.len() && #[trigger] r@[i].0 == t by {
        assert(kind_index(t) < 9);
    }
    r
}

/// The number of objects of all kinds together.
pub open spec fn total_count(objects: Seq<Object>) -> nat {
    count_of(objects, ObjectType::AMBULANCE) + count_of(objects, ObjectType::CAR)
        + count_of(objects, ObjectType::BICYCLE) + count_of(objects, ObjectType::PEDESTRIAN)
        + count_of(objects, ObjectType::TRAIN) + count_of(objects, ObjectType::TRUCK)
        + count_of(objects, ObjectType::VAN) + count_of(objects, ObjectType::MOTORCYCLE)
        + count_of(objects, ObjectType::ANIMAL)
}

/// Every object is counted once, under its own kind: the counts of all
/// kinds add up to the number of objects in the frame.
pub proof fn law_counts_add_up(objects: Seq<Object>)
    ensures
        total_count(objects) == objects.len(),
    decreases objects.len(),
{
    if objects.len() > 0 {
        law_counts_add_up(objects.drop_last());
    }
}

} // verus!
