use fog_node::auction::{get_a_node, Auction, AuctionError, MaxInFlight, MaxInFlightError};
use fog_node::concurrent_map::Resources;
use fog_node::cron::Cron;
use fog_node::function_life::{self, LivenessStep};
use fog_node::faas::faas_function_name;
use fog_node::function::{Function, FunctionError};
use fog_node::k8s::{K8s, OFFLINE_NODE_K8S};
use fog_node::records::{Finishable, Proposed, States};
use fog_node::resource_tracking::ResourceTracking;
use fog_node::sla::Sla;

const MEGABYTE: u64 = 1_000_000;
const GIGABYTE: u64 = 1_000_000_000;
const MILLICPU: u64 = 1_000_000;
const CPU: u64 = 1_000_000_000;

struct Instance {
    auction: Auction,
    function: Function,
    reserved_cpu: u64,
    reserved_memory: u64,
}

fn get_auction_impl() -> Instance {
    let k8s = K8s::new();
    let reserved_cpu = 20 * CPU;
    let reserved_memory = 8 * GIGABYTE;
    let resource_tracking =
        ResourceTracking::new(k8s.get_k8s_metrics(), reserved_cpu, reserved_memory).unwrap();
    let function = Function::new(resource_tracking);
    let auction = Auction::new(MaxInFlight::try_new(1000).unwrap());
    Instance { auction, function, reserved_cpu, reserved_memory }
}

fn sla(id: u128, memory: u64, cpu: u64, duration_secs: f64) -> Sla {
    Sla {
        id,
        memory,
        cpu,
        latency_max_bits: 1.0f64.to_bits(),
        duration_bits: duration_secs.to_bits(),
        max_replica: 1,
        input_max_size: MEGABYTE,
        function_image: "toto".to_string(),
        function_live_name: "toto".to_string(),
    }
}

fn bid(instance: &mut Instance, sla: Sla) -> Option<(u128, fog_node::records::Proposed)> {
    let node = get_a_node(&instance.function, &sla)?;
    instance.auction.bid_on(&mut instance.function, sla, node.name, 1.5f64.to_bits())
}

fn used(function: &Function) -> Resources {
    function.resource_tracking().get_used(OFFLINE_NODE_K8S).unwrap()
}

#[test]
fn test_sla_refusal() {
    let mut instance = get_auction_impl();
    let sla = sla(1, 1000 * GIGABYTE, 100 * MILLICPU, 5.0);
    let res = bid(&mut instance, sla.clone());
    assert!(res.is_none());
    let res = instance.auction.bid_on(&mut instance.function, sla, OFFLINE_NODE_K8S.to_string(), 1.5f64.to_bits());
    assert!(res.is_none());
    assert!(instance.function.function_tracking().get_proposed(&1).is_none());
}

#[test]
fn test_sla_acceptance() {
    let mut instance = get_auction_impl();
    let sla = sla(7, 100 * MEGABYTE, 100 * MILLICPU, 5.0);
    let res = bid(&mut instance, sla.clone());
    assert!(res.is_some());
    let (bid_id, record) = res.unwrap();
    assert_eq!((bid_id >> 76) & 0xf, 4);
    assert_eq!((bid_id >> 62) & 0x3, 2);
    let id = sla.id;
    assert_eq!(id, record.sla.id);

    instance.function.pay_function(id).expect("Function paid failed");
    let now = used(&instance.function);
    assert_eq!(now.cpu, sla.cpu);
    assert_eq!(now.memory, sla.memory);

    instance.function.provision_function(id, faas_function_name(id)).expect("Provisioning paid function failed");
    instance.function.set_function_is_live(id).expect("Function never came alive");
    let removable = instance.function.finish_function(id).expect("Finishing failed");
    assert_eq!(removable.unwrap().function_name, faas_function_name(id));

    instance.function.function_tracking().get_finished(&id).expect("Function is not finished, not ok");
    let now = used(&instance.function);
    assert_eq!(now.memory, 0);
    assert_eq!(now.cpu, 0);
}

#[test]
fn test_finished_before_live() {
    let mut instance = get_auction_impl();
    let sla = sla(8, 100 * MEGABYTE, 100 * MILLICPU, 1.0);
    let res = bid(&mut instance, sla.clone());
    assert!(res.is_some());
    let (_id, record) = res.unwrap();
    let id = sla.id;
    assert_eq!(id, record.sla.id);

    instance.function.pay_function(id).expect("Function paid failed");
    let now = used(&instance.function);
    assert_eq!(now.cpu, sla.cpu);
    assert_eq!(now.memory, sla.memory);

    let removable = instance.function.finish_function(id).expect("Finishing failed");
    assert!(removable.is_none());
    instance.function.function_tracking().get_finished(&id).expect("Function is not finished, not ok");
    let now = used(&instance.function);
    assert_eq!(now.memory, 0);
    assert_eq!(now.cpu, 0);
}

#[test]
fn test_mutliple_functions() {
    let mut instance = get_auction_impl();
    let sla1 = sla(10, 100 * MEGABYTE, 100 * MILLICPU, 1.0);
    let mut sla2 = sla1.clone();
    sla2.id = 11;
    sla2.duration_bits = 5.0f64.to_bits();
    sla2.cpu = 200 * MILLICPU;
    sla2.memory = 50 * MEGABYTE;

    assert!(bid(&mut instance, sla1.clone()).is_some());
    assert!(bid(&mut instance, sla2.clone()).is_some());

    instance.function.pay_function(sla2.id).expect("Function paid failed");
    let now = used(&instance.function);
    assert_eq!(now.cpu, sla2.cpu);
    assert_eq!(now.memory, sla2.memory);

    instance.function.pay_function(sla1.id).expect("Function paid failed");
    let now = used(&instance.function);
    assert_eq!(now.cpu, sla1.cpu + sla2.cpu);
    assert_eq!(now.memory, sla1.memory + sla2.memory);

    instance.function.finish_function(sla1.id).expect("Finishing failed");
    instance.function.function_tracking().get_finished(&sla1.id).expect("Function is not finished, not ok");
    let now = used(&instance.function);
    assert_eq!(now.cpu, sla2.cpu);
    assert_eq!(now.memory, sla2.memory);

    instance.function.finish_function(sla2.id).expect("Finishing failed");
    instance.function.function_tracking().get_finished(&sla2.id).expect("Function is not finished, not ok");
    let now = used(&instance.function);
    assert_eq!(now.memory, 0);
    assert_eq!(now.cpu, 0);

    let available = instance.function.resource_tracking().get_available(OFFLINE_NODE_K8S).unwrap();
    assert_eq!(available.memory, instance.reserved_memory);
    assert_eq!(available.cpu, instance.reserved_cpu);
    assert_eq!(available.memory + now.memory, instance.reserved_memory);
    assert_eq!(available.cpu + now.cpu, instance.reserved_cpu);
}

/// Many functions bid on, paid for (most of them) and finished, checked
/// against a plain count of what should be in use.
#[test]
fn test_lots_functions_parallel() {
    let mut instance = get_auction_impl();
    instance.auction = Auction::new(MaxInFlight::try_new(1_000_000).unwrap());
    let mut state: u64 = 42;
    let mut next = move || {
        state = state.wrapping_mul(6364136223846793005).wrapping_add(1442695040888963407);
        (state >> 33) % 4 + 1
    };
    let mut running: Vec<(u128, u64, u64)> = Vec::new();
    let mut ran = 0;
    let mut successes = 0;
    for ii in 0..20_000u128 {
        let memory = next() * 10 * MEGABYTE;
        let cpu = next() * 10 * MILLICPU;
        let sla = sla(1_000 + ii, memory, cpu, next() as f64);
        if bid(&mut instance, sla).is_some() {
            successes += 1;
            if next() > 1 && instance.function.pay_function(1_000 + ii).is_ok() {
                running.push((1_000 + ii, memory, cpu));
                ran += 1;
            }
        }
        if running.len() > 30 || (next() == 4 && !running.is_empty()) {
            let (id, _, _) = running.remove(0);
            instance.function.finish_function(id).expect("Finishing failed");
            assert!(instance.function.function_tracking().get_finished(&id).is_some());
        }
        let expected_memory: u64 = running.iter().map(|r| r.1).sum();
        let expected_cpu: u64 = running.iter().map(|r| r.2).sum();
        let now = used(&instance.function);
        assert_eq!(now.memory, expected_memory);
        assert_eq!(now.cpu, expected_cpu);
    }
    for (id, _, _) in running.drain(..) {
        instance.function.finish_function(id).expect("Finishing failed");
    }
    assert!(successes >= 10_000);
    assert!(ran > 0);
    let now = used(&instance.function);
    assert_eq!(now.memory, 0);
    assert_eq!(now.cpu, 0);
}

#[test]
fn payment_refused_when_not_proposed() {
    let mut instance = get_auction_impl();
    assert_eq!(instance.function.pay_function(99), Err(FunctionError::NotProposed(99)));
    assert_eq!(instance.function.finish_function(99), Err(FunctionError::NotFinishable(99)));
    assert_eq!(instance.function.provision_function(99, "x".to_string()), Err(FunctionError::NotPaid(99)));
    assert_eq!(instance.function.set_function_is_live(99), Err(FunctionError::NotProvisioned(99)));
}

#[test]
fn payment_refused_on_an_unknown_cluster_node() {
    let mut instance = get_auction_impl();
    let s = sla(98, 10 * MEGABYTE, 10 * MILLICPU, 1.0);
    let placed = instance.auction.bid_on(&mut instance.function, s.clone(), "elsewhere".to_string(), 1.0f64.to_bits());
    assert!(placed.is_none());
    assert!(instance.function.function_tracking().get_proposed(&98).is_none());
    instance.function.insert_proposal(Proposed::new(1.0f64.to_bits(), s, "elsewhere".to_string()));
    assert_eq!(instance.function.check_payment(98), Err(FunctionError::UnknownNode(98)));
    assert_eq!(instance.function.pay_function(98), Err(FunctionError::UnknownNode(98)));
    assert_eq!(used(&instance.function), Resources { memory: 0, cpu: 0 });
}

#[test]
fn payment_refused_when_no_longer_satisfiable() {
    let mut instance = get_auction_impl();
    let big = sla(20, 5 * GIGABYTE, 100 * MILLICPU, 1.0);
    let big2 = sla(21, 5 * GIGABYTE, 100 * MILLICPU, 1.0);
    assert!(bid(&mut instance, big).is_some());
    assert!(bid(&mut instance, big2).is_some());
    instance.function.pay_function(20).expect("first payment");
    assert_eq!(instance.function.pay_function(21), Err(FunctionError::Unsatisfiable(21)));
    let now = used(&instance.function);
    assert_eq!(now.memory, 5 * GIGABYTE);
    match instance.function.function_tracking().get_proposed(&21) {
        Some(p) => assert_eq!(p.sla.id, 21),
        None => panic!("the refused proposal must stay proposed"),
    }
}

#[test]
fn payment_refused_on_overflow() {
    let k8s = K8s::new();
    let resource_tracking = ResourceTracking::new(k8s.get_k8s_metrics(), u64::MAX, u64::MAX).unwrap();
    let mut function = Function::new(resource_tracking);
    let mut auction = Auction::new(MaxInFlight::try_new(10).unwrap());
    let mut first = sla(30, u64::MAX - 10, 1, 1.0);
    first.max_replica = 0;
    let mut second = sla(31, 100, 1, 1.0);
    second.max_replica = 0;
    auction.bid_on(&mut function, first, OFFLINE_NODE_K8S.to_string(), 0).unwrap();
    auction.bid_on(&mut function, second, OFFLINE_NODE_K8S.to_string(), 0).unwrap();
    function.pay_function(30).unwrap();
    assert_eq!(function.pay_function(31), Err(FunctionError::ResourceOverflow(31)));
}

#[test]
fn check_payment_predicts_payment() {
    let mut instance = get_auction_impl();
    let s = sla(40, 100 * MEGABYTE, 100 * MILLICPU, 1.0);
    bid(&mut instance, s).unwrap();
    let predicted = instance.function.check_payment(40).unwrap();
    let paid = instance.function.pay_function(40).unwrap();
    assert_eq!(predicted, paid);
    let (finished, removable) = instance.function.check_finish(40).unwrap();
    assert_eq!(finished.sla.id, 40);
    assert!(removable.is_none());
    instance.function.provision_function(40, "fn-40".to_string()).unwrap();
    let (_, removable) = instance.function.check_finish(40).unwrap();
    assert_eq!(removable.unwrap().function_name, "fn-40");
    match instance.function.function_tracking().get_finishable(&40) {
        Some(Finishable::Provisioned(p)) => assert_eq!(p.function_name, "fn-40"),
        _ => panic!("expected a provisioned record"),
    }
}

#[test]
fn max_in_flight_limits_bids_per_second() {
    assert_eq!(MaxInFlight::try_new(0), Err(MaxInFlightError::GreaterOrEqualViolated));
    let mut auction = Auction::new(MaxInFlight::try_new(2).unwrap());
    assert_eq!(auction.check_in_flight_at(10), Ok(()));
    assert_eq!(auction.check_in_flight_at(10), Ok(()));
    assert_eq!(auction.check_in_flight_at(10), Ok(()));
    assert_eq!(auction.check_in_flight_at(10), Err(AuctionError::TooManyInFlight));
    // The other parity starts from zero and resets this one.
    assert_eq!(auction.check_in_flight_at(11), Ok(()));
    assert_eq!(auction.check_in_flight_at(12), Ok(()));
}

#[test]
fn bid_refused_records_nothing() {
    let mut instance = get_auction_impl();
    instance.auction = Auction::new(MaxInFlight::try_new(1).unwrap());
    let mut refused = 0;
    for i in 0..10u128 {
        let s = sla(50 + i, MEGABYTE, MILLICPU, 1.0);
        match instance.auction.bid_on(&mut instance.function, s, OFFLINE_NODE_K8S.to_string(), 0) {
            Some(_) => assert!(matches!(instance.function.function_tracking().get_proposed(&(50 + i)), Some(_))),
            None => {
                refused += 1;
                assert!(instance.function.function_tracking().get_proposed(&(50 + i)).is_none());
            },
        }
    }
    assert!(refused >= 1);
}

#[test]
fn get_a_node_gives_usage_and_capacity() {
    let instance = get_auction_impl();
    let s = sla(60, MEGABYTE, MILLICPU, 1.0);
    let choice = get_a_node(&instance.function, &s).unwrap();
    assert_eq!(choice.name, OFFLINE_NODE_K8S);
    assert_eq!(choice.used, Resources { memory: 0, cpu: 0 });
    assert_eq!(choice.available, Resources { memory: 8 * GIGABYTE, cpu: 20 * CPU });
    // exactly the capacity is not enough: usage must stay strictly below it
    let full = sla(61, 8 * GIGABYTE, MILLICPU, 1.0);
    assert!(get_a_node(&instance.function, &full).is_none());
    let mut almost = sla(62, 4 * GIGABYTE, MILLICPU, 1.0);
    almost.max_replica = 2;
    assert!(get_a_node(&instance.function, &almost).is_none());
    almost.memory = 4 * GIGABYTE - 1;
    assert!(get_a_node(&instance.function, &almost).is_some());
}

#[test]
fn new_proposal_replaces_a_record() {
    let mut instance = get_auction_impl();
    let s = sla(70, MEGABYTE, MILLICPU, 1.0);
    bid(&mut instance, s.clone()).unwrap();
    instance.function.pay_function(70).unwrap();
    bid(&mut instance, s).unwrap();
    match instance.function.function_tracking().get_finishable(&70) {
        None => {},
        Some(_) => panic!("a new proposal restarts the lifecycle"),
    }
    let _ = States::Proposed(instance.function.function_tracking().get_proposed(&70).unwrap());
}

#[test]
fn paying_books_the_release_and_firing_finishes() {
    let mut instance = get_auction_impl();
    let mut cron = Cron::new(15.0f64.to_bits());
    let s = sla(50, 100 * MEGABYTE, 100 * MILLICPU, 2.0);
    bid(&mut instance, s.clone()).unwrap();
    assert_eq!(
        function_life::pay_function(&mut instance.function, &mut cron, 77, 10, 2_000),
        Err(FunctionError::NotProposed(77))
    );
    let paid = function_life::pay_function(&mut instance.function, &mut cron, 50, 10, 2_000).unwrap();
    assert_eq!(paid.sla, s);
    let plan = cron.get_utilisation_variations(instance.function.function_tracking());
    assert_eq!(plan.len(), 1);
    assert_eq!(plan[0].timestamp, 10 + 2_000 * 1000);
    assert_eq!(plan[0].node, OFFLINE_NODE_K8S);
    assert_eq!(used(&instance.function), Resources { memory: s.memory, cpu: s.cpu });
    assert_eq!(function_life::unprovision(&mut instance.function, &mut cron, 50), Ok(None));
    assert!(cron.oneshot_fired().is_none());
    assert_eq!(used(&instance.function), Resources { memory: 0, cpu: 0 });
    assert!(cron.get_utilisation_variations(instance.function.function_tracking()).is_empty());
    assert_eq!(
        function_life::unprovision(&mut instance.function, &mut cron, 50),
        Err(FunctionError::NotFinishable(50))
    );
}

#[test]
fn liveness_is_retried_until_the_timeout() {
    let mut instance = get_auction_impl();
    let s = sla(60, 100 * MEGABYTE, 100 * MILLICPU, 2.0);
    bid(&mut instance, s.clone()).unwrap();
    instance.function.pay_function(60).unwrap();
    instance.function.provision_function(60, "fn-60".to_string()).unwrap();
    assert_eq!(function_life::liveness_step(&mut instance.function, 60, false, 10, 100), Ok(LivenessStep::Retry));
    assert_eq!(function_life::liveness_step(&mut instance.function, 60, false, 100, 100), Ok(LivenessStep::Retry));
    match function_life::liveness_step(&mut instance.function, 60, false, 101, 100) {
        Ok(LivenessStep::GaveUp(Some(r))) => assert_eq!(r.function_name, "fn-60"),
        other => panic!("unexpected {:?}", other),
    }
    assert!(instance.function.function_tracking().get_finished(&60).is_some());
    assert_eq!(used(&instance.function), Resources { memory: 0, cpu: 0 });

    let s = sla(61, 100 * MEGABYTE, 100 * MILLICPU, 2.0);
    bid(&mut instance, s).unwrap();
    instance.function.pay_function(61).unwrap();
    instance.function.provision_function(61, "fn-61".to_string()).unwrap();
    assert_eq!(function_life::liveness_step(&mut instance.function, 61, true, 500, 100), Ok(LivenessStep::Live));
    assert_eq!(
        function_life::liveness_step(&mut instance.function, 99, true, 500, 100),
        Err(FunctionError::NotFinishable(99))
    );
}
