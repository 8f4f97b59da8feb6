//! Reports on all peripherals, and the queue that a scan fills.

use ble_inspect::event::{CentralEvent, CentralState, PeripheralId, Record};
use ble_inspect::monitor::{monitor_step, ScanWakeup};
use ble_inspect::report::{report_peripheral, Report};
use ble_inspect::timestamp::Timestamp;
use ble_inspect::wakeup::Wakeup;
use std::collections::HashMap;
use std::sync::Arc;

fn peripheral(addr: &str) -> PeripheralId {
    PeripheralId { text: addr.to_string() }
}

fn at(secs: i64) -> Timestamp {
    Timestamp::from_timestamp(1_700_000_000 + secs, 0).unwrap()
}

fn services(id: &PeripheralId, secs: i64) -> Record {
    let services = Arc::new(vec![0x5678]);
    (at(secs), CentralEvent::ServicesAdvertisement { id: id.clone(), services })
}

fn manufacturer_data(id: &PeripheralId, secs: i64) -> Record {
    let manufacturer_data = Arc::new(HashMap::from([(0x004C, vec![1, 2, 3, 4])]));
    let id = id.clone();
    (at(secs), CentralEvent::ManufacturerDataAdvertisement { id, manufacturer_data })
}

fn service_data(id: &PeripheralId, secs: i64) -> Record {
    let service_data = Arc::new(HashMap::from([(0x1234, vec![1, 2, 3, 4])]));
    (at(secs), CentralEvent::ServiceDataAdvertisement { id: id.clone(), service_data })
}

fn state_update(secs: i64) -> Record {
    (at(secs), CentralEvent::StateUpdate(CentralState::PoweredOn))
}

fn run(records: Vec<Record>) -> Report {
    let wakeups = vec![Wakeup::Tick(records), Wakeup::StopChanged(true)];
    report_peripheral(wakeups)
        .expect("report_peripheral should stop when stop signal is received")
}

#[test]
fn test_report_peripheral_stop_signal() {
    let id = peripheral("00:11:22:33:44:55");
    let records = || vec![services(&id, 0), manufacturer_data(&id, 1), service_data(&id, 2)];
    let returned_events = run(records()).into_results();
    assert_eq!(returned_events.len(), 3, "Should return all processed events");

    let mut remaining_records = records();
    Report::new().drain(&mut remaining_records);
    assert_eq!(remaining_records.len(), 0, "All events should be processed");
}

#[test]
fn test_report_peripheral_drop_state_update() {
    let id1 = peripheral("00:00:00:01:00:00");
    let records = || vec![services(&id1, 0), state_update(1), service_data(&id1, 2)];
    let returned_events = run(records()).into_results();
    assert_eq!(returned_events.len(), 2, "Should return all processed events");

    let mut remaining_records = records();
    Report::new().drain(&mut remaining_records);
    assert_eq!(remaining_records.len(), 0, "All events should be processed");
}

#[test]
fn a_report_takes_the_latest_record_first() {
    let id1 = peripheral("a");
    let id2 = peripheral("b");
    let records = vec![services(&id1, 0), state_update(1), service_data(&id2, 2), services(&id1, 3)];
    let expected = vec![services(&id1, 3), service_data(&id2, 2), services(&id1, 0)];
    assert_eq!(run(records).into_results(), expected);
}

#[test]
fn a_report_groups_events_by_peripheral() {
    let id1 = peripheral("a");
    let id2 = peripheral("b");
    let report = run(vec![
        services(&id1, 0),
        service_data(&id2, 1),
        manufacturer_data(&id1, 2),
        state_update(3),
    ]);
    assert_eq!(report.device_count(), 2);
    let groups = report.peripheral_events();
    assert_eq!(groups.len(), 2);
    for (id, events) in groups {
        if *id == id1 {
            assert_eq!(*events, vec![manufacturer_data(&id1, 2).1, services(&id1, 0).1]);
        } else {
            assert_eq!(*id, id2);
            assert_eq!(*events, vec![service_data(&id2, 1).1]);
        }
    }
}

#[test]
fn a_report_keeps_every_identified_record() {
    let id1 = peripheral("a");
    let id2 = peripheral("b");
    let wakeups = vec![
        Wakeup::Tick(vec![services(&id1, 0), services(&id1, 0)]),
        Wakeup::StopChanged(false),
        Wakeup::Tick(vec![state_update(1), services(&id2, 2)]),
        Wakeup::StopChanged(true),
        Wakeup::Tick(vec![services(&id2, 4)]),
    ];
    let results = report_peripheral(wakeups).unwrap().into_results();
    assert_eq!(results, vec![services(&id1, 0), services(&id1, 0), services(&id2, 2)]);
}

#[test]
fn an_empty_report_has_no_devices() {
    let report = run(vec![]);
    assert_eq!(report.device_count(), 0);
    assert!(report.peripheral_events().is_empty());
    assert_eq!(run(vec![state_update(0)]).device_count(), 0);
}

#[test]
fn a_report_goes_on_until_the_stop_signal_is_true() {
    let id = peripheral("a");
    assert!(report_peripheral(vec![]).is_none());
    let unstopped = vec![Wakeup::Tick(vec![services(&id, 0)]), Wakeup::StopChanged(false)];
    assert!(report_peripheral(unstopped).is_none());
    let mut report = Report::new();
    assert!(report.step(Wakeup::Tick(vec![services(&id, 0)])));
    assert!(report.step(Wakeup::StopChanged(false)));
    assert!(!report.step(Wakeup::StopChanged(true)));
}

#[test]
fn a_scan_queues_records_until_it_ends() {
    let id = peripheral("a");
    let mut queue = vec![services(&id, 0)];
    assert!(monitor_step(&mut queue, ScanWakeup::Event(service_data(&id, 1))));
    assert!(monitor_step(&mut queue, ScanWakeup::StopChanged(false)));
    assert_eq!(queue, vec![services(&id, 0), service_data(&id, 1)]);
    assert!(!monitor_step(&mut queue, ScanWakeup::StopChanged(true)));
    assert!(!monitor_step(&mut queue, ScanWakeup::Ended));
    assert_eq!(queue.len(), 2);
}
