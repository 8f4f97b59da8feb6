//! Captures of configured peripherals, from wakeups to results.

use ble_inspect::config::CaptureConfig;
use ble_inspect::event::{
    get_peripheral_id, CentralEvent, CentralState, MessageType, PeripheralId, Record,
};
use ble_inspect::save::{save_events, Action, CaptureSession};
use ble_inspect::timestamp::Timestamp;
use ble_inspect::wakeup::Wakeup;
use std::collections::HashMap;
use std::sync::Arc;

const NOW: i64 = 1_700_000_000;

fn peripheral(addr: &str) -> PeripheralId {
    PeripheralId { text: addr.to_string() }
}

fn at(secs: i64) -> Timestamp {
    Timestamp::from_timestamp(NOW + secs, 250_000_000).unwrap()
}

fn create_test_events(events: Vec<(PeripheralId, MessageType, u32)>) -> Vec<Record> {
    let mut records = Vec::new();
    for (id, message_type, diff) in events {
        let event = match message_type {
            MessageType::ManufacturerDataAdvertisement => {
                CentralEvent::ManufacturerDataAdvertisement {
                    id,
                    manufacturer_data: Arc::new(HashMap::from([(0x004C, vec![1, 2, 3, 4])])),
                }
            }
            MessageType::ServicesAdvertisement => CentralEvent::ServicesAdvertisement {
                id,
                services: Arc::new(vec![0x5678]),
            },
            MessageType::ServiceDataAdvertisement => CentralEvent::ServiceDataAdvertisement {
                id,
                service_data: Arc::new(HashMap::from([(0x1234, vec![1, 2, 3, 4])])),
            },
            MessageType::StateUpdate => CentralEvent::StateUpdate(CentralState::PoweredOn),
            _ => panic!("Unsupported message type"),
        };
        records.push((at(diff as i64), event));
    }
    records
}

fn capture(id: &PeripheralId, duration_sec: u32) -> CaptureConfig<PeripheralId> {
    CaptureConfig { peripheral_id: id.clone(), duration_sec }
}

/// One tick with the records, then the stop signal.
fn run(records: Vec<Record>, configs: Vec<CaptureConfig<PeripheralId>>) -> Vec<Record> {
    let wakeups = vec![Wakeup::Tick(records), Wakeup::StopChanged(true)];
    save_events(wakeups, configs).expect("save_events should stop when stop signal is received")
}

/// The records that one tick hands out to be stored.
fn stored(records: Vec<Record>, configs: Vec<CaptureConfig<PeripheralId>>) -> Vec<Record> {
    let mut session = CaptureSession::new(configs);
    match session.step(Wakeup::Tick(records)) {
        Action::Store(stored) => stored,
        other => panic!("a tick stores records: {:?}", other),
    }
}

#[test]
fn test_save_events_stop_signal() {
    let id = peripheral("00:11:22:33:44:55");
    let events = create_test_events(vec![(id, MessageType::ServiceDataAdvertisement, 0)]);
    let result = run(events, vec![]);
    assert_eq!(
        result.len(),
        0,
        "No events should be returned when stop signal is received immediately"
    );
}

#[test]
fn test_save_events_filter() {
    let id1 = peripheral("00:00:00:01:00:00");
    let id2 = peripheral("00:00:00:02:00:00");
    let events = create_test_events(vec![
        (id1.clone(), MessageType::ServicesAdvertisement, 10),
        (id2.clone(), MessageType::ServicesAdvertisement, 10),
    ]);
    let result = run(events, vec![capture(&id2, 0)]);
    assert_eq!(result.len(), 1, "Filtered event count should be 1");
    if let Some(id) = get_peripheral_id(&result[0].1) {
        assert_eq!(id, id2, "Event should be from peripheral_id2");
    } else {
        panic!("Event should have a peripheral ID");
    }
}

fn one_peripheral_events(id: &PeripheralId) -> Vec<Record> {
    create_test_events(vec![
        (id.clone(), MessageType::ServicesAdvertisement, 0),
        (id.clone(), MessageType::ManufacturerDataAdvertisement, 1),
        (id.clone(), MessageType::ServiceDataAdvertisement, 2),
        (id.clone(), MessageType::ManufacturerDataAdvertisement, 3),
        (id.clone(), MessageType::ServiceDataAdvertisement, 4),
        (id.clone(), MessageType::ServiceDataAdvertisement, 13),
        (id.clone(), MessageType::ManufacturerDataAdvertisement, 15),
        (id.clone(), MessageType::ServicesAdvertisement, 17),
        (id.clone(), MessageType::ManufacturerDataAdvertisement, 18),
        (id.clone(), MessageType::ServiceDataAdvertisement, 19),
    ])
}

#[test]
fn test_save_events_collect_one_events_for_each_message_type() {
    let id = peripheral("00:00:00:01:00:00");
    let result = run(one_peripheral_events(&id), vec![capture(&id, 20)]);
    assert_eq!(result.len(), 3, "collect one event for each message type");
    let stored_events = stored(one_peripheral_events(&id), vec![capture(&id, 20)]);
    assert_eq!(stored_events.len(), 3, "all the events processed");
    assert_eq!(stored_events, result);
}

#[test]
fn test_save_events_collect_one_events_for_each_message_type_per_periphel() {
    let id1 = peripheral("00:00:00:01:00:00");
    let id2 = peripheral("00:00:00:02:00:00");
    let events = || {
        create_test_events(vec![
            (id1.clone(), MessageType::ServicesAdvertisement, 0),
            (id1.clone(), MessageType::ManufacturerDataAdvertisement, 1),
            (id1.clone(), MessageType::ServiceDataAdvertisement, 2),
            (id1.clone(), MessageType::ManufacturerDataAdvertisement, 3),
            (id2.clone(), MessageType::ServiceDataAdvertisement, 4),
            (id2.clone(), MessageType::ServiceDataAdvertisement, 13),
            (id2.clone(), MessageType::ManufacturerDataAdvertisement, 15),
            (id1.clone(), MessageType::ServicesAdvertisement, 17),
            (id1.clone(), MessageType::ManufacturerDataAdvertisement, 18),
            (id1.clone(), MessageType::ServiceDataAdvertisement, 19),
        ])
    };
    let configs = || vec![capture(&id1, 20), capture(&id2, 20)];
    let result = run(events(), configs());
    assert_eq!(result.len(), 5, "collect one event for each message type");
    let stored_events = stored(events(), configs());
    assert_eq!(stored_events.len(), 5, "all the events processed");
}

#[test]
fn test_save_events_collect_events_interval_wise() {
    let id1 = peripheral("00:00:00:01:00:00");
    let id2 = peripheral("00:00:00:02:00:00");
    let mut events = vec![
        // id1: 3
        (id1.clone(), MessageType::ServicesAdvertisement, 0),
        (id1.clone(), MessageType::ManufacturerDataAdvertisement, 1),
        (id1.clone(), MessageType::ServiceDataAdvertisement, 2),
        (id1.clone(), MessageType::ManufacturerDataAdvertisement, 3),
        // later than 10 secs: 2
        (id1.clone(), MessageType::ManufacturerDataAdvertisement, 11),
        (id1.clone(), MessageType::ServiceDataAdvertisement, 12),
        (id1.clone(), MessageType::ManufacturerDataAdvertisement, 13),
        // id2: 2
        (id2.clone(), MessageType::ServiceDataAdvertisement, 0),
        (id2.clone(), MessageType::ServiceDataAdvertisement, 13),
        (id2.clone(), MessageType::ManufacturerDataAdvertisement, 15),
        // later than 20 secs: 3
        (id2.clone(), MessageType::ServicesAdvertisement, 24),
        (id2.clone(), MessageType::ServiceDataAdvertisement, 33),
        (id2.clone(), MessageType::ManufacturerDataAdvertisement, 35),
    ];
    events.sort_by(|a, b| a.2.cmp(&b.2));
    let configs = || vec![capture(&id1, 10), capture(&id2, 20)];
    let result = run(create_test_events(events.clone()), configs());
    assert_eq!(result.len(), 10, "collect one event for each message type");
    let stored_events = stored(create_test_events(events), configs());
    assert_eq!(stored_events.len(), 10, "all the events processed");
}

#[test]
fn test_save_events_fifo_order() {
    let id = peripheral("00:00:00:01:00:00");
    let events = create_test_events(vec![
        (id.clone(), MessageType::ServiceDataAdvertisement, 0),
        (id.clone(), MessageType::ManufacturerDataAdvertisement, 1),
        (id.clone(), MessageType::ServicesAdvertisement, 2),
    ]);
    let result = run(events, vec![capture(&id, 20)]);
    assert_eq!(result.len(), 3, "Should return all 3 events");
    for i in 1..result.len() {
        let prev_time = (result[i - 1].0.timestamp(), result[i - 1].0.timestamp_subsec_nanos());
        let curr_time = (result[i].0.timestamp(), result[i].0.timestamp_subsec_nanos());
        assert!(prev_time <= curr_time, "Events should be in chronological order");
    }
}

#[test]
fn test_save_events_filtering() {
    let id1 = peripheral("00:00:00:01:00:00");
    let id2 = peripheral("00:00:00:02:00:00");
    let events = create_test_events(vec![
        (id1.clone(), MessageType::ServiceDataAdvertisement, 0),
        (id2.clone(), MessageType::ServiceDataAdvertisement, 1),
        (id1.clone(), MessageType::ManufacturerDataAdvertisement, 2),
        (id2.clone(), MessageType::ManufacturerDataAdvertisement, 3),
    ]);
    let result = run(events, vec![capture(&id1, 20)]);
    assert_eq!(result.len(), 2, "Should return only events from peripheral_id1");
    for event in &result {
        if let Some(id) = get_peripheral_id(&event.1) {
            assert_eq!(id, id1, "All events should be from peripheral_id1");
        } else {
            panic!("Event should have a peripheral ID");
        }
    }
}

#[test]
fn test_save_events_error_handling() {
    let id = peripheral("00:00:00:01:00:00");
    let events = create_test_events(vec![(id, MessageType::ServiceDataAdvertisement, 0)]);
    let result = run(events, vec![]);
    assert_eq!(result.len(), 0, "Should return no events when all are filtered out");
}

#[test]
fn test_save_events_empty_events() {
    let result = run(vec![], vec![]);
    assert_eq!(result.len(), 0, "Should return no events when the vector is empty");
}

#[test]
fn captured_records_keep_their_content_and_order() {
    let id = peripheral("00:00:00:01:00:00");
    let events = one_peripheral_events(&id);
    let expected: Vec<Record> = vec![
        (events[0].0, events[0].1.clone()),
        (events[1].0, events[1].1.clone()),
        (events[2].0, events[2].1.clone()),
    ];
    assert_eq!(run(events, vec![capture(&id, 20)]), expected);
}

#[test]
fn a_capture_goes_on_until_the_stop_signal_is_true() {
    let id = peripheral("00:00:00:01:00:00");
    let tick = |diff: u32, message_type: MessageType| {
        Wakeup::Tick(create_test_events(vec![(id.clone(), message_type, diff)]))
    };
    let first = || tick(0, MessageType::ServicesAdvertisement);
    let second = || tick(1, MessageType::ServiceDataAdvertisement);
    let configs = || vec![capture(&id, 20)];

    let unstopped = save_events(vec![first(), Wakeup::StopChanged(false), second()], configs());
    assert!(unstopped.is_none());
    let nothing = save_events(vec![], configs());
    assert!(nothing.is_none());
    let late = save_events(vec![first(), Wakeup::StopChanged(true), second()], configs()).unwrap();
    assert_eq!(late.len(), 1);
    let wakeups = vec![first(), Wakeup::StopChanged(false), second(), Wakeup::StopChanged(true)];
    assert_eq!(save_events(wakeups, configs()).unwrap().len(), 2);
    assert_eq!(save_events(vec![Wakeup::StopChanged(true), first()], configs()).unwrap().len(), 0);
}

#[test]
fn ticks_do_not_matter() {
    let id = peripheral("00:00:00:01:00:00");
    let all = run(one_peripheral_events(&id), vec![capture(&id, 10)]);
    for cut in 0..10 {
        let mut head = one_peripheral_events(&id);
        let tail = head.split_off(cut);
        let wakeups = vec![Wakeup::Tick(head), Wakeup::Tick(tail), Wakeup::StopChanged(true)];
        assert_eq!(save_events(wakeups, vec![capture(&id, 10)]).unwrap(), all);
    }
    assert_eq!(all.len(), 6);
}

#[test]
fn a_window_lasts_for_the_interval_to_the_nanosecond() {
    let id = peripheral("a");
    let update = |secs: i64, nanos: u32| {
        let time = Timestamp::from_timestamp(secs, nanos).unwrap();
        (time, CentralEvent::DeviceUpdated(id.clone()))
    };
    let before = run(vec![update(100, 5), update(110, 4)], vec![capture(&id, 10)]);
    assert_eq!(before.len(), 1);
    let on_time = run(vec![update(100, 5), update(110, 5)], vec![capture(&id, 10)]);
    assert_eq!(on_time.len(), 2);
    // The window began with the first record, not with the last that was ignored.
    let ignored = vec![update(100, 0), update(109, 0), update(111, 0)];
    assert_eq!(run(ignored, vec![capture(&id, 10)]).len(), 2);
    // The next window begins with the record that ended the last.
    let next = vec![update(100, 0), update(111, 0), update(120, 0), update(121, 0)];
    assert_eq!(run(next, vec![capture(&id, 10)]).len(), 3);
}

#[test]
fn a_new_kind_does_not_begin_a_window() {
    let id = peripheral("a");
    let events = vec![
        (at(0), CentralEvent::DeviceDiscovered(id.clone())),
        (at(9), CentralEvent::DeviceConnected(id.clone())),
        (at(10), CentralEvent::DeviceConnected(id.clone())),
        (at(11), CentralEvent::DeviceDiscovered(id.clone())),
        (at(12), CentralEvent::DeviceDisconnected(id.clone())),
        (at(13), CentralEvent::DeviceConnected(id.clone())),
    ];
    let result = run(events, vec![capture(&id, 10)]);
    let seconds: Vec<i64> = result.iter().map(|record| record.0.timestamp() - NOW).collect();
    assert_eq!(seconds, vec![0, 9, 10, 11, 12]);
}

#[test]
fn a_zero_interval_captures_everything_in_order_of_time() {
    let id = peripheral("a");
    let update = |secs: i64| (at(secs), CentralEvent::DeviceUpdated(id.clone()));
    let result = run(vec![update(0), update(0), update(5), update(6)], vec![capture(&id, 0)]);
    assert_eq!(result.len(), 4);
    // A record from before the window began is ignored.
    let result = run(vec![update(5), update(4), update(5)], vec![capture(&id, 0)]);
    assert_eq!(result.len(), 2);
}

#[test]
fn the_last_configuration_of_a_peripheral_counts() {
    let id = peripheral("a");
    let update = |secs: i64| (at(secs), CentralEvent::DeviceUpdated(id.clone()));
    let records = || vec![update(0), update(5), update(10)];
    let result = run(records(), vec![capture(&id, 100), capture(&id, 5)]);
    assert_eq!(result.len(), 3);
    let result = run(records(), vec![capture(&id, 5), capture(&id, 100)]);
    assert_eq!(result.len(), 1);
}

#[test]
fn peripherals_are_independent() {
    let id1 = peripheral("a");
    let id2 = peripheral("b");
    let first = |secs: i64| (at(secs), CentralEvent::DeviceUpdated(id1.clone()));
    let second = |secs: i64| (at(secs), CentralEvent::DeviceUpdated(id2.clone()));
    let configs = || vec![capture(&id1, 10), capture(&id2, 3)];
    let mixed = vec![first(0), second(1), first(2), second(4), first(10), second(5)];
    let of_first: Vec<Record> = run(mixed, configs())
        .into_iter()
        .filter(|record| get_peripheral_id(&record.1) == Some(id1.clone()))
        .collect();
    assert_eq!(of_first, run(vec![first(0), first(2), first(10)], configs()));
    assert_eq!(of_first.len(), 2);
}

#[test]
fn state_updates_are_ignored() {
    let id = peripheral("a");
    let records = || {
        vec![
            (at(0), CentralEvent::StateUpdate(CentralState::PoweredOff)),
            (at(1), CentralEvent::DeviceUpdated(id.clone())),
            (at(2), CentralEvent::StateUpdate(CentralState::Unknown)),
        ]
    };
    let result = run(records(), vec![capture(&id, 0)]);
    assert_eq!(result, vec![(at(1), CentralEvent::DeviceUpdated(id.clone()))]);
}

#[test]
fn draining_empties_the_queue() {
    let id = peripheral("a");
    let mut session = CaptureSession::new(vec![capture(&id, 20)]);
    let mut queue = one_peripheral_events(&id);
    let stored = session.drain(&mut queue);
    assert!(queue.is_empty());
    assert_eq!(stored.len(), 3);
    let mut more = one_peripheral_events(&id);
    assert_eq!(session.drain(&mut more).len(), 0);
    assert_eq!(session.into_results(), stored);
}

#[test]
fn steps_answer_the_stop_signal() {
    let mut session = CaptureSession::new(vec![]);
    assert!(matches!(session.step(Wakeup::StopChanged(false)), Action::Wait));
    assert!(matches!(session.step(Wakeup::StopChanged(true)), Action::Finish));
}
