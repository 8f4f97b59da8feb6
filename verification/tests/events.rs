//! Events, timestamps and the decision on a single record.

use ble_inspect::capture::{process_event, LastSeen, MessageTypeSet, SeenMessageTypes};
use ble_inspect::event::{
    get_message_type, get_peripheral_id, CentralEvent, CentralState, MessageType, PeripheralId,
};
use ble_inspect::filter::Intervals;
use ble_inspect::timestamp::{has_elapsed, Timestamp, MAX_SECS, MIN_SECS};
use std::collections::HashMap;
use std::sync::Arc;

fn id() -> PeripheralId {
    PeripheralId { text: "a".to_string() }
}

fn all_events() -> Vec<(CentralEvent, MessageType)> {
    vec![
        (
            CentralEvent::ManufacturerDataAdvertisement {
                id: id(),
                manufacturer_data: Arc::new(HashMap::from([(1, vec![2])])),
            },
            MessageType::ManufacturerDataAdvertisement,
        ),
        (
            CentralEvent::ServicesAdvertisement { id: id(), services: Arc::new(vec![1]) },
            MessageType::ServicesAdvertisement,
        ),
        (
            CentralEvent::ServiceDataAdvertisement {
                id: id(),
                service_data: Arc::new(HashMap::from([(1, vec![2])])),
            },
            MessageType::ServiceDataAdvertisement,
        ),
        (CentralEvent::DeviceDiscovered(id()), MessageType::DeviceDiscovered),
        (CentralEvent::DeviceConnected(id()), MessageType::DeviceConnected),
        (CentralEvent::DeviceDisconnected(id()), MessageType::DeviceDisconnected),
        (CentralEvent::DeviceUpdated(id()), MessageType::DeviceUpdated),
    ]
}

#[test]
fn every_event_of_a_peripheral_has_its_id_and_kind() {
    for (event, kind) in all_events() {
        assert_eq!(get_peripheral_id(&event), Some(id()));
        assert_eq!(get_message_type(&event), kind);
        assert_eq!(event.clone(), event);
    }
    let update = CentralEvent::StateUpdate(CentralState::PoweredOff);
    assert_eq!(get_peripheral_id(&update), None);
    assert_eq!(get_message_type(&update), MessageType::StateUpdate);
}

#[test]
fn message_type_sets_hold_what_was_added() {
    let set = MessageTypeSet::new();
    assert!(!set.contains(MessageType::DeviceConnected));
    let set = set.with(MessageType::DeviceConnected).with(MessageType::DeviceConnected);
    assert!(set.contains(MessageType::DeviceConnected));
    assert!(!set.contains(MessageType::DeviceUpdated));
}

#[test]
fn without_a_window_start_the_epoch_counts() {
    let mut results = Vec::new();
    let mut seen = SeenMessageTypes::new();
    let mut last_seen = LastSeen::new();
    let mut intervals = Intervals::new();
    seen.insert("a".to_string(), MessageType::DeviceUpdated);
    intervals.insert("a".to_string(), 100);
    let mut process = |secs: i64| {
        let time = Timestamp::from_timestamp(secs, 0).unwrap();
        let record = (time, CentralEvent::DeviceUpdated(id()));
        process_event(&record, &mut results, &mut seen, &mut last_seen, &intervals)
    };
    assert!(!process(99));
    assert!(process(100));
    assert!(!process(199));
    assert!(process(200));
    assert_eq!(results.len(), 2);
    assert_eq!(last_seen.get("a").unwrap().timestamp(), 200);
}

#[test]
fn a_known_window_start_stays_with_the_first_record() {
    let mut results = Vec::new();
    let mut seen = SeenMessageTypes::new();
    let mut last_seen = LastSeen::new();
    let intervals = Intervals::new();
    last_seen.insert("a".to_string(), Timestamp::unix_epoch());
    let record = (Timestamp::from_timestamp(5, 0).unwrap(), CentralEvent::DeviceUpdated(id()));
    assert!(process_event(&record, &mut results, &mut seen, &mut last_seen, &intervals));
    assert_eq!(last_seen.get("a"), Some(&Timestamp::unix_epoch()));
    assert!(seen.contains("a", MessageType::DeviceUpdated));
    assert!(!seen.contains("a", MessageType::DeviceConnected));
    assert!(seen.contains_key("a"));
    assert!(!seen.contains_key("b"));
    seen.reset("a".to_string());
    assert!(seen.contains_key("a"));
    assert!(!seen.contains("a", MessageType::DeviceUpdated));
}

#[test]
fn a_state_update_changes_nothing() {
    let mut results = Vec::new();
    let mut seen = SeenMessageTypes::new();
    let mut last_seen = LastSeen::new();
    let update = CentralEvent::StateUpdate(CentralState::PoweredOn);
    let record = (Timestamp::unix_epoch(), update);
    let captured =
        process_event(&record, &mut results, &mut seen, &mut last_seen, &Intervals::new());
    assert!(!captured);
    assert!(results.is_empty());
    assert!(last_seen.is_empty());
}

#[test]
fn timestamps_are_those_that_have_a_date() {
    let nanos = [0, 999_999_999, 1_000_000_000, 1_999_999_999, 2_000_000_000, u32::MAX];
    let seconds = [
        i64::MIN, MIN_SECS - 1, MIN_SECS, MIN_SECS + 59, -61, -60, -1, 0, 58, 59, 60, 119,
        MAX_SECS - 1, MAX_SECS, MAX_SECS + 1, i64::MAX,
    ];
    for secs in seconds {
        for nano in nanos {
            let date = chrono::DateTime::from_timestamp(secs, nano);
            let timestamp = Timestamp::from_timestamp(secs, nano);
            assert_eq!(timestamp.is_some(), date.is_some(), "{} {}", secs, nano);
            if let Some(timestamp) = timestamp {
                assert_eq!(timestamp.timestamp(), secs);
                assert_eq!(timestamp.timestamp_subsec_nanos(), nano);
            }
        }
    }
    assert_eq!(Timestamp::unix_epoch().timestamp(), chrono::DateTime::UNIX_EPOCH.timestamp());
    assert_eq!(Timestamp::unix_epoch().timestamp_subsec_nanos(), 0);
}

#[test]
fn an_interval_has_elapsed_when_it_is_over() {
    let at = |secs: i64, nanos: u32| Timestamp::from_timestamp(secs, nanos).unwrap();
    assert!(has_elapsed(&at(10, 0), &at(0, 0), 10));
    assert!(!has_elapsed(&at(9, 999_999_999), &at(0, 0), 10));
    assert!(has_elapsed(&at(10, 5), &at(0, 5), 10));
    assert!(!has_elapsed(&at(10, 4), &at(0, 5), 10));
    assert!(has_elapsed(&at(3, 0), &at(3, 0), 0));
    assert!(!has_elapsed(&at(2, 999_999_999), &at(3, 0), 0));
    assert!(has_elapsed(&at(MAX_SECS, 0), &at(MIN_SECS, 0), u32::MAX));
    assert!(!has_elapsed(&at(MIN_SECS, 0), &at(MAX_SECS, 0), 0));
}

#[test]
fn a_leap_second_counts() {
    let at = |secs: i64, nanos: u32| Timestamp::from_timestamp(secs, nanos).unwrap();
    // From the start of the second after which the leap second comes.
    assert!(has_elapsed(&at(59, 1_500_000_000), &at(59, 500_000_000), 1));
    assert!(!has_elapsed(&at(59, 1_499_999_999), &at(59, 500_000_000), 1));
    // From within the leap second to the second that follows it.
    assert!(has_elapsed(&at(60, 500_000_000), &at(59, 1_500_000_000), 1));
    assert!(!has_elapsed(&at(60, 499_999_999), &at(59, 1_500_000_000), 1));
    // To a leap second whose time of day comes before that of the start.
    assert!(has_elapsed(&at(86_459, 1_500_000_000), &at(60, 500_000_000), 86_399));
    assert!(!has_elapsed(&at(86_459, 1_500_000_000), &at(60, 500_000_000), 86_400));
}

#[test]
fn elapsed_time_is_that_of_the_calendar() {
    let seconds = [MIN_SECS, -86_401, -61, -1, 0, 59, 60, 61, 119, 86_399, 86_459, MAX_SECS];
    let nanos = [0, 1, 999_999_999, 1_000_000_000, 1_500_000_000, 1_999_999_999];
    let mut points = Vec::new();
    for secs in seconds {
        for nano in nanos {
            if let Some(date) = chrono::DateTime::from_timestamp(secs, nano) {
                points.push((Timestamp::from_timestamp(secs, nano).unwrap(), date));
            }
        }
    }
    assert!(points.len() > 40);
    for (later, later_date) in &points {
        for (earlier, earlier_date) in &points {
            for interval in [0, 1, 2, 59, 60, 61, 86_399, 86_400, u32::MAX] {
                let delta = chrono::TimeDelta::seconds(interval as i64);
                let expected = *later_date - *earlier_date >= delta;
                assert_eq!(has_elapsed(later, earlier, interval), expected);
            }
        }
    }
}

#[test]
fn without_an_interval_every_record_is_captured() {
    let mut results = Vec::new();
    let mut seen = SeenMessageTypes::new();
    let mut last_seen = LastSeen::new();
    let intervals = Intervals::new();
    for secs in [100, 100, 50, -10, 200, 0] {
        let time = Timestamp::from_timestamp(secs, 0).unwrap();
        let record = (time, CentralEvent::DeviceUpdated(id()));
        assert!(process_event(&record, &mut results, &mut seen, &mut last_seen, &intervals));
        assert_eq!(results.last(), Some(&record));
        assert_eq!(last_seen.get("a").unwrap().timestamp(), secs);
    }
    assert_eq!(results.len(), 6);
}

#[test]
fn an_interval_of_zero_looks_at_the_time() {
    let mut results = Vec::new();
    let mut seen = SeenMessageTypes::new();
    let mut last_seen = LastSeen::new();
    let mut intervals = Intervals::new();
    intervals.insert("a".to_string(), 0);
    let mut process = |secs: i64| {
        let time = Timestamp::from_timestamp(secs, 0).unwrap();
        let record = (time, CentralEvent::DeviceUpdated(id()));
        process_event(&record, &mut results, &mut seen, &mut last_seen, &intervals)
    };
    assert!(process(100));
    assert!(!process(99));
    assert!(process(100));
    assert!(process(101));
}
