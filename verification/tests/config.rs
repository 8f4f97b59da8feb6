//! Filter configurations and the filter that they make.

use ble_inspect::config::{
    collect_configs, parse_capture_configs, parse_uuid, validate_config, CaptureConfig,
    FilterConfig, ValidationParser,
};
use ble_inspect::event::{CentralEvent, CentralState, PeripheralId};
use ble_inspect::filter::{capture_intervals, create_event_filter};
use ble_inspect::timestamp::Timestamp;

const UUID: &str = "67e55044-10b1-426f-9247-bb680e5fe0c8";

fn config(text: &str, duration_sec: u32) -> CaptureConfig<String> {
    CaptureConfig { peripheral_id: text.to_string(), duration_sec }
}

fn platform(text: &str) -> Result<PeripheralId, String> {
    Ok(PeripheralId { text: text.to_string() })
}

fn parse(text: &str, platform_id: Result<PeripheralId, String>) -> Result<(String, u32), String> {
    let written = config(text, 7);
    written
        .parse((written.clone(), platform_id))
        .map(|parsed| (parsed.peripheral_id.text, parsed.duration_sec))
}

#[test]
fn a_configuration_needs_a_peripheral_id() {
    assert_eq!(parse("", platform("x")), Err("Missing peripheral ID".to_string()));
    assert_eq!(parse("", Err("no".to_string())), Err("Missing peripheral ID".to_string()));
}

#[test]
fn a_peripheral_id_is_a_uuid() {
    let error = uuid::Uuid::parse_str("67e55044").unwrap_err();
    assert_eq!(
        parse("67e55044", platform("x")),
        Err(format!("Invalid UUID format: {}", error))
    );
    assert_eq!(
        parse("67e55044-10b1-426f-9247-bb680e5fe0cz", Err("no".to_string())),
        Err("Invalid UUID format: invalid character: found `z` at 35".to_string())
    );
}

#[test]
fn the_platform_has_to_know_the_peripheral_id() {
    assert_eq!(
        parse(UUID, Err("unknown".to_string())),
        Err("Invalid peripheral ID: unknown".to_string())
    );
}

#[test]
fn a_valid_configuration_keeps_its_interval() {
    assert_eq!(parse(UUID, platform("hci0/dev_1")), Ok(("hci0/dev_1".to_string(), 7)));
    let simple = UUID.replace('-', "");
    assert_eq!(parse(&simple, platform(&simple)), Ok((simple, 7)));
}

#[test]
fn uuids_are_parsed() {
    assert_eq!(parse_uuid(UUID), Ok(0x67e5504410b1426f9247bb680e5fe0c8));
    assert_eq!(parse_uuid("00000000-0000-0000-0000-000000001234"), Ok(0x1234));
    assert_eq!(
        parse_uuid("g7e55044-10b1-426f-9247-bb680e5fe0c8"),
        Err("invalid character: found `g` at 0".to_string())
    );
}

#[test]
fn objections_come_in_order() {
    let outcome = |text: &str, uuid: Result<u128, String>, id: Result<PeripheralId, String>| {
        validate_config(config(text, 3), uuid, id).map(|parsed| parsed.duration_sec)
    };
    let bad = || Err("bad".to_string());
    let unknown = || Err("unknown".to_string());
    assert_eq!(outcome("", bad(), unknown()), Err("Missing peripheral ID".to_string()));
    assert_eq!(outcome("x", bad(), unknown()), Err("Invalid UUID format: bad".to_string()));
    assert_eq!(outcome("x", Ok(1), unknown()), Err("Invalid peripheral ID: unknown".to_string()));
    assert_eq!(outcome("x", Ok(1), platform("y")), Ok(3));
}

#[test]
fn the_first_invalid_configuration_is_reported() {
    let sources = vec![
        (config(UUID, 1), platform("a")),
        (config(UUID, 2), Err("unknown".to_string())),
        (config("", 3), platform("c")),
    ];
    assert_eq!(
        parse_capture_configs(sources).err(),
        Some("Failed to parse capture config: Invalid peripheral ID: unknown".to_string())
    );
}

#[test]
fn all_valid_configurations_are_kept_in_order() {
    let sources = vec![(config(UUID, 1), platform("a")), (config(UUID, 2), platform("b"))];
    let configs = parse_capture_configs(sources).unwrap();
    assert_eq!(configs.len(), 2);
    assert_eq!(configs[0].peripheral_id.text, "a");
    assert_eq!(configs[0].duration_sec, 1);
    assert_eq!(configs[1].peripheral_id.text, "b");
    assert_eq!(configs[1].duration_sec, 2);
    assert_eq!(parse_capture_configs(vec![]).unwrap().len(), 0);
    assert_eq!(
        collect_configs(vec![Err("one".to_string()), Err("two".to_string())]).err(),
        Some("Failed to parse capture config: one".to_string())
    );
}

#[test]
fn the_default_filter_is_empty() {
    assert!(FilterConfig::default().capture_config.is_empty());
}

#[test]
fn the_filter_lets_configured_peripherals_through() {
    let parsed = |text: &str| CaptureConfig {
        peripheral_id: PeripheralId { text: text.to_string() },
        duration_sec: 0,
    };
    let time = Timestamp::unix_epoch();
    let update = |text: &str| {
        (time, CentralEvent::DeviceUpdated(PeripheralId { text: text.to_string() }))
    };
    let filter = create_event_filter(vec![parsed("a"), parsed("b")]);
    assert!(filter(&update("a")));
    assert!(filter(&update("b")));
    assert!(!filter(&update("c")));
    assert!(!filter(&(time, CentralEvent::StateUpdate(CentralState::PoweredOn))));
    assert!(!create_event_filter(vec![])(&update("a")));
}

#[test]
fn intervals_are_those_of_the_configurations() {
    let parsed = |text: &str, duration_sec: u32| CaptureConfig {
        peripheral_id: PeripheralId { text: text.to_string() },
        duration_sec,
    };
    let intervals = capture_intervals(&vec![parsed("a", 1), parsed("b", 2), parsed("a", 3)]);
    assert_eq!(intervals.get("a"), Some(&3));
    assert_eq!(intervals.get("b"), Some(&2));
    assert_eq!(intervals.get("c"), None);
}
