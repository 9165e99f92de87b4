use fog_node::concurrent_map::Resources;
use fog_node::cron::{Cron, Task, UnprovisionFunction};
use fog_node::function_tracking::FunctionTracking;
use fog_node::k8s::{aggregate_metrics, AllocatableReport, K8sError, NodeReport, NodeStatusReport, UsageReport};
use fog_node::records::{Finishable, Finished, Live, Paid, Proposed, Provisioned, RemovableFunctionRecord};
use fog_node::resource_tracking::{NodeMetrics, ResourceError, ResourceTracking};
use fog_node::sla::Sla;

fn sla(id: u128) -> Sla {
    Sla {
        id,
        memory: 10,
        cpu: 20,
        latency_max_bits: 0,
        duration_bits: 2.0f64.to_bits(),
        max_replica: 1,
        input_max_size: 0,
        function_image: "image".to_string(),
        function_live_name: "live".to_string(),
    }
}

fn proposed(id: u128) -> Proposed {
    Proposed::new(3, sla(id), "node-a".to_string())
}

#[test]
fn insert_then_get_proposed() {
    let mut db = FunctionTracking::new();
    db.insert(proposed(1));
    assert_eq!(db.get_proposed(&1), Some(proposed(1)));
    assert_eq!(db.get_paid(&1), None);
    assert_eq!(db.get_proposed(&2), None);
}

#[test]
fn lifecycle_moves_forward_only() {
    let mut db = FunctionTracking::default();
    db.insert(proposed(1));
    let paid: Paid = proposed(1).to_paid();
    // provisioning before payment changes nothing
    db.save_provisioned(&1, paid.clone().to_provisioned("f".to_string()));
    assert_eq!(db.get_provisioned(&1), None);
    db.save_paid(&1, paid.clone());
    assert_eq!(db.get_paid(&1), Some(paid.clone()));
    // paying twice changes nothing
    let other = Paid { bid_bits: 9, sla: sla(1), node: "node-b".to_string() };
    db.save_paid(&1, other);
    assert_eq!(db.get_paid(&1), Some(paid.clone()));
    let provisioned: Provisioned = paid.to_provisioned("fn-1".to_string());
    db.save_provisioned(&1, provisioned.clone());
    assert_eq!(db.get_provisioned(&1), Some(provisioned.clone()));
    assert_eq!(db.get_removable(&1), Some(RemovableFunctionRecord { function_name: "fn-1".to_string() }));
    let live: Live = provisioned.to_live();
    db.save_live(&1, live.clone());
    assert_eq!(db.get_finishable(&1), Some(Finishable::Live(live.clone())));
    assert_eq!(db.get_finishable_sla(&1), Some(sla(1)));
    let finished: Finished = Finishable::Live(live).to_finished();
    assert_eq!(finished, Finished { bid_bits: 3, sla: sla(1), node: "node-a".to_string() });
    db.save_finished(&1, finished.clone());
    assert_eq!(db.get_finished(&1), Some(finished));
    assert_eq!(db.get_finishable(&1), None);
    assert_eq!(db.get_finishable_sla(&1), None);
    assert_eq!(db.get_removable(&1), None);
    // finishing an unknown SLA records nothing
    db.save_finished(&5, Finished { bid_bits: 0, sla: sla(5), node: "x".to_string() });
    assert_eq!(db.get_finished(&5), None);
}

fn metrics(name: &str, usage: Option<Resources>, allocatable: Option<Resources>) -> NodeMetrics {
    NodeMetrics { name: name.to_string(), usage, allocatable }
}

#[test]
fn resource_tracking_from_cluster_report() {
    let some = Some(Resources { memory: 1, cpu: 1 });
    let tracking = ResourceTracking::new(vec![metrics("a", some, some), metrics("b", some, some)], 7, 9).unwrap();
    let mut nodes = tracking.get_nodes().clone();
    nodes.sort();
    assert_eq!(nodes, vec!["a".to_string(), "b".to_string()]);
    assert_eq!(tracking.get_available("a"), Ok(Resources { memory: 9, cpu: 7 }));
    assert_eq!(tracking.get_used("b"), Ok(Resources { memory: 0, cpu: 0 }));
    assert_eq!(tracking.get_used("c"), Err(ResourceError::UnknownUsed("c".to_string())));
    assert_eq!(tracking.key_exists("a"), Ok(()));

    let missing_alloc = ResourceTracking::new(vec![metrics("a", some, None), metrics("b", None, some)], 7, 9);
    assert!(matches!(missing_alloc, Err(ResourceError::MissingAllocatable(ref n)) if n == "a"));
    let missing_usage = ResourceTracking::new(vec![metrics("a", some, some), metrics("b", None, some)], 7, 9);
    assert!(matches!(missing_usage, Err(ResourceError::MissingUsage(ref n)) if n == "b"));
}

#[test]
fn set_used_then_get_used() {
    let some = Some(Resources { memory: 1, cpu: 1 });
    let mut tracking = ResourceTracking::new(vec![metrics("a", some, some)], 7, 9).unwrap();
    assert_eq!(tracking.set_used("a".to_string(), 4, 5), Ok(()));
    assert_eq!(tracking.get_used("a"), Ok(Resources { memory: 4, cpu: 5 }));
    assert_eq!(tracking.get_available("a"), Ok(Resources { memory: 9, cpu: 7 }));
    assert_eq!(tracking.set_used("z".to_string(), 4, 5), Err(ResourceError::UnknownUsed("z".to_string())));
}

#[test]
fn cron_books_and_lists_pending_unprovisions() {
    let mut db = FunctionTracking::new();
    db.insert(proposed(1));
    db.save_paid(&1, proposed(1).to_paid());
    db.insert(proposed(2));
    let mut cron = Cron::new(15.0f64.to_bits());
    assert_eq!(f64::from_bits(cron.periodic_task_period_bits()), 15.0);
    cron.add_oneshot(Task::UnprovisionFunction(UnprovisionFunction { sla: 1, node: "node-a".to_string() }), 100, 2_000);
    cron.add_oneshot(Task::UnprovisionFunction(UnprovisionFunction { sla: 2, node: "node-a".to_string() }), 200, 2_000);
    let events = cron.get_utilisation_variations(&db);
    assert_eq!(events.len(), 1);
    assert_eq!(events[0].timestamp, 100 + 2_000 * 1000);
    assert_eq!(events[0].sla, sla(1));
    let fired = cron.oneshot_fired().unwrap();
    assert_eq!(fired.created_at, 100);
    assert_eq!(cron.oneshot_fired().unwrap().created_at, 200);
    assert!(cron.oneshot_fired().is_none());
}

#[test]
fn finished_functions_leave_the_plan() {
    let mut db = FunctionTracking::new();
    db.insert(proposed(1));
    db.save_paid(&1, proposed(1).to_paid());
    db.insert(proposed(2));
    db.save_paid(&2, proposed(2).to_paid());
    let mut cron = Cron::new(15.0f64.to_bits());
    cron.add_oneshot(Task::UnprovisionFunction(UnprovisionFunction { sla: 1, node: "node-a".to_string() }), 100, 2_000);
    cron.add_oneshot(Task::UnprovisionFunction(UnprovisionFunction { sla: 2, node: "node-b".to_string() }), 200, 2_000);
    assert_eq!(cron.get_utilisation_variations(&db).len(), 2);
    let finished = Finishable::Paid(db.get_paid(&1).unwrap()).to_finished();
    db.save_finished(&1, finished);
    let events = cron.get_utilisation_variations(&db);
    assert_eq!(events.len(), 1);
    assert_eq!(events[0].sla, sla(2));
    assert_eq!(events[0].node, "node-b");
    assert_eq!(events[0].timestamp, 200 + 2_000 * 1000);
}

fn usage(name: Option<&str>, cpu: &str, memory: &str) -> UsageReport {
    UsageReport { name: name.map(|n| n.to_string()), cpu: cpu.to_string(), memory: memory.to_string() }
}

fn node(name: Option<&str>, cpu: Option<&str>, memory: Option<&str>) -> NodeReport {
    NodeReport {
        name: name.map(|n| n.to_string()),
        status: Some(NodeStatusReport {
            allocatable: Some(AllocatableReport { cpu: cpu.map(|c| c.to_string()), memory: memory.map(|m| m.to_string()) }),
        }),
    }
}

#[test]
fn cluster_reports_merge_into_node_metrics() {
    let merged = aggregate_metrics(
        vec![usage(Some("a"), "1024n", "256Mi"), usage(Some("b"), "5n", "1Ki"), usage(Some("a"), "2048n", "1Mi")],
        vec![node(Some("a"), Some("4"), Some("8Gi"))],
    )
    .unwrap();
    assert_eq!(
        merged,
        vec![
            NodeMetrics {
                name: "a".to_string(),
                usage: Some(Resources { memory: 1_048_576, cpu: 2048 }),
                allocatable: Some(Resources { memory: 8_589_934_592, cpu: 4_000_000_000 }),
            },
            NodeMetrics { name: "b".to_string(), usage: Some(Resources { memory: 1024, cpu: 5 }), allocatable: None },
        ]
    );
    assert_eq!(aggregate_metrics(vec![usage(None, "1n", "1")], vec![]), Err(K8sError::MissingMetricName));
    assert_eq!(
        aggregate_metrics(vec![usage(Some("a"), "n1", "1")], vec![]),
        Err(K8sError::UnparsableQuantity("n1".to_string()))
    );
    assert_eq!(
        aggregate_metrics(vec![usage(Some("a"), "1n", "1Q")], vec![]),
        Err(K8sError::UnreadableQuantity("1Q".to_string()))
    );
    let good = || vec![usage(Some("a"), "1n", "1")];
    assert_eq!(
        aggregate_metrics(good(), vec![NodeReport { name: Some("a".to_string()), status: None }]),
        Err(K8sError::MissingStatus)
    );
    assert_eq!(
        aggregate_metrics(
            good(),
            vec![NodeReport { name: Some("a".to_string()), status: Some(NodeStatusReport { allocatable: None }) }]
        ),
        Err(K8sError::MissingAllocatable)
    );
    assert_eq!(aggregate_metrics(good(), vec![node(None, Some("1"), Some("1"))]), Err(K8sError::MissingNodeName));
    assert_eq!(aggregate_metrics(good(), vec![node(Some("a"), None, Some("1"))]), Err(K8sError::MissingCpu));
    assert_eq!(aggregate_metrics(good(), vec![node(Some("a"), Some("1"), None)]), Err(K8sError::MissingMemory));
    assert_eq!(
        aggregate_metrics(good(), vec![node(Some("z"), Some("1"), Some("1"))]),
        Err(K8sError::UnknownNode("z".to_string()))
    );
}
