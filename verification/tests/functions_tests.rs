use fog_node::config::{config_from_decoded, decode_config, ConfigError};
use fog_node::errors::IndividualErrorList;
use fog_node::faas::{faas_function_name, function_definition, function_name_for, FaaSBackendOfflineImpl, FunctionTimeout, PlatformSettings};
use fog_node::concurrent_map::Resources;
use fog_node::records::Proposed;
use fog_node::sla::Sla;
use fog_node::iot::{keep_sending, ping_outcome, PingOutcome};
use fog_node::packet_loss::PacketLossRing;
use fog_node::quantity::{parse_quantity, quantity_expression, split_quantity, MissingUnitType, QuantityError, QuantityKind};
use fog_node::traffic::{count_objects, Object, ObjectType};
use std::time::Duration;

#[test]
fn quantities_get_their_unit_back() {
    assert_eq!(quantity_expression("1024n", &MissingUnitType::Complete("ppb".to_string())), Ok("1024 ppb".to_string()));
    assert_eq!(quantity_expression("1024", &MissingUnitType::Suffix("B".to_string())), Ok("1024 B".to_string()));
    assert_eq!(quantity_expression("256Mi", &MissingUnitType::Suffix("B".to_string())), Ok("256 MiB".to_string()));
    assert_eq!(quantity_expression("4", &MissingUnitType::Complete(String::new())), Ok("4 ".to_string()));
    assert_eq!(split_quantity("12k_3"), Some(("12".to_string(), "k_3".to_string())));
    assert_eq!(split_quantity("n12"), None);
    assert_eq!(split_quantity(""), None);
    assert_eq!(split_quantity("12 Mi"), None);
    assert_eq!(
        quantity_expression("12.5Mi", &MissingUnitType::Suffix("B".to_string())),
        Err(QuantityError::Unparsable("12.5Mi".to_string()))
    );
}

#[test]
fn config_is_base64_then_utf8() {
    assert_eq!(decode_config("aGVsbG8gZm9n"), Ok("hello fog".to_string()));
    assert_eq!(decode_config("not base64!"), Err(ConfigError::Base64));
    assert_eq!(decode_config("/w=="), Err(ConfigError::Utf8));
    assert_eq!(config_from_decoded(Some(b"fog".to_vec())), Ok("fog".to_string()));
    assert_eq!(config_from_decoded(Some(vec![0xff])), Err(ConfigError::Utf8));
    assert_eq!(config_from_decoded(None), Err(ConfigError::Base64));
}

#[test]
fn faas_names_start_with_a_letter() {
    let id: u128 = 0x6f9619ff_8b86_d011_b42d_00c04fc964ff;
    assert_eq!(faas_function_name(id), "fogfn-6f9619ff-8b86-d011-b42d-00c04fc964ff");
    assert_eq!(function_name_for("abc"), "fogfn-abc");
    let backend = FaaSBackendOfflineImpl::new(Duration::from_secs(2));
    assert_eq!(backend.online_delay(), Duration::from_secs(2));
    assert_eq!(FunctionTimeout::try_new(1500).unwrap().into_inner(), 1500);
}

#[test]
fn ring_keeps_the_latest_samples() {
    let mut ring = PacketLossRing::new(3);
    ring.update(0.1f64);
    ring.update(0.2);
    assert_eq!(ring.samples_held(), &vec![0.1, 0.2]);
    ring.update(0.3);
    ring.update(0.4);
    assert_eq!(ring.samples_held(), &vec![0.4, 0.2, 0.3]);
    ring.update(0.5);
    ring.update(0.6);
    ring.update(0.7);
    assert_eq!(ring.samples_held(), &vec![0.7, 0.5, 0.6]);
}

fn object(t: ObjectType) -> Object {
    Object { object_type: t, position_x: 1, position_y: 2, bound_x: 3, bound_y: 4 }
}

#[test]
fn objects_are_counted_by_kind() {
    let objects = vec![object(ObjectType::CAR), object(ObjectType::ANIMAL), object(ObjectType::CAR), object(ObjectType::AMBULANCE)];
    assert_eq!(count_objects(&objects), vec![(ObjectType::AMBULANCE, 1), (ObjectType::CAR, 2), (ObjectType::ANIMAL, 1)]);
    assert!(count_objects(&vec![]).is_empty());
    let total: u32 = count_objects(&objects).iter().map(|(_, c)| c).sum();
    assert_eq!(total as usize, objects.len());
}

#[test]
fn iot_jobs_stop_on_refusal_or_time() {
    assert_eq!(ping_outcome(None), PingOutcome::Failed);
    assert_eq!(ping_outcome(Some(200)), PingOutcome::Delivered);
    assert_eq!(ping_outcome(Some(404)), PingOutcome::Refused);
    assert_eq!(ping_outcome(Some(503)), PingOutcome::Failed);
    assert_eq!(ping_outcome(Some(302)), PingOutcome::Delivered);
    assert!(!keep_sending(PingOutcome::Refused, Some(1), 10));
    assert!(keep_sending(PingOutcome::Failed, Some(10), 10));
    assert!(!keep_sending(PingOutcome::Delivered, Some(11), 10));
    assert!(keep_sending(PingOutcome::Delivered, None, 10));
}

#[test]
fn error_lists_keep_their_order() {
    let list = IndividualErrorList::from(vec!["a", "b"]);
    assert_eq!(list.list(), &vec!["a", "b"]);
}

#[test]
fn test_ratio_cpu() {
    assert_eq!(parse_quantity("1024n", &MissingUnitType::Complete("ppb".to_string()), QuantityKind::Cpu), Ok(1024));
}

#[test]
fn test_quantity_memory() {
    assert_eq!(parse_quantity("1024", &MissingUnitType::Suffix("B".to_string()), QuantityKind::Memory), Ok(1024));
    let expression = quantity_expression("1024", &MissingUnitType::Suffix("B".to_string())).unwrap();
    let quantity: uom::si::rational64::Information = expression.parse().unwrap();
    assert_eq!(
        format!("{}", quantity.into_format_args(uom::si::information::byte, uom::fmt::DisplayStyle::Abbreviation)),
        "1024 B".to_owned()
    );
}

#[test]
fn quantities_follow_unicode_classes() {
    assert_eq!(quantity_expression("12µ", &MissingUnitType::Complete("ppb".to_string())), Ok("12 ppb".to_string()));
    assert_eq!(split_quantity("1٢x"), Some(("1٢".to_string(), "x".to_string())));
    assert_eq!(split_quantity("12-3"), None);
}

#[test]
fn quantities_are_read_as_amounts() {
    let complete = |u: &str| MissingUnitType::Complete(u.to_string());
    let suffix = |u: &str| MissingUnitType::Suffix(u.to_string());
    assert_eq!(parse_quantity("1024n", &complete("ppb"), QuantityKind::Cpu), Ok(1024));
    assert_eq!(parse_quantity("4", &complete(""), QuantityKind::Cpu), Ok(4_000_000_000));
    assert_eq!(parse_quantity("1024", &suffix("B"), QuantityKind::Memory), Ok(1024));
    assert_eq!(parse_quantity("256Mi", &suffix("B"), QuantityKind::Memory), Ok(268_435_456));
    assert_eq!(parse_quantity("3k", &suffix("B"), QuantityKind::Memory), Ok(3_000));
    assert_eq!(parse_quantity("12Q", &suffix("B"), QuantityKind::Memory), Err(QuantityError::Unreadable("12Q".to_string())));
    assert_eq!(parse_quantity("1٢", &complete("ppb"), QuantityKind::Cpu), Err(QuantityError::Unreadable("1٢".to_string())));
    assert_eq!(parse_quantity("x1", &complete("ppb"), QuantityKind::Cpu), Err(QuantityError::Unparsable("x1".to_string())));
    assert_eq!(parse_quantity("99999999999999999999", &suffix("B"), QuantityKind::Memory), Err(QuantityError::Unreadable("99999999999999999999".to_string())));
}

#[test]
fn deployed_functions_get_their_definition() {
    let id: u128 = 0x6f9619ff_8b86_d011_b42d_00c04fc964ff;
    let sla = Sla {
        id,
        memory: 100,
        cpu: 200,
        latency_max_bits: 1.0f64.to_bits(),
        duration_bits: 2.0f64.to_bits(),
        max_replica: 3,
        input_max_size: 1,
        function_image: "img".to_string(),
        function_live_name: "live".to_string(),
    };
    let paid = Proposed::new(1.0f64.to_bits(), sla, "node".to_string()).to_paid();
    let settings = PlatformSettings {
        influx_bucket: "b".to_string(),
        influx_address: "a".to_string(),
        influx_org: "o".to_string(),
        influx_token: "t".to_string(),
        otel_endpoint: Some("e".to_string()),
    };
    let d = function_definition(id, &paid, "{}".to_string(), settings);
    assert_eq!(d.image, "img");
    assert_eq!(d.service, "fogfn-6f9619ff-8b86-d011-b42d-00c04fc964ff");
    assert_eq!(d.limits, Resources { memory: 100, cpu: 200 });
    assert_eq!(d.requests, Resources { memory: 100, cpu: 200 });
    assert_eq!(d.max_scale, 3);
    let env: Vec<(&str, &str)> = d.env_vars.iter().map(|(k, v)| (k.as_str(), v.as_str())).collect();
    assert_eq!(
        env,
        vec![
            ("SLA", "{}"),
            ("INFLUX_BUCKET", "b"),
            ("INFLUX_ADDRESS", "a"),
            ("INFLUX_ORG", "o"),
            ("INFLUX_TOKEN", "t"),
            ("ID", "6f9619ff-8b86-d011-b42d-00c04fc964ff"),
            ("NAME", "live"),
            ("OTEL_EXPORTER_OTLP_ENDPOINT_FUNCTION", "e"),
        ]
    );
}
