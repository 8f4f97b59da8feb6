//! The queue of records that a running scan fills.

use vstd::prelude::*;
use crate::event::Record;

verus! {

/// What a running scan wakes up for.
#[derive(Debug)]
pub enum ScanWakeup {
    /// The adapter reported an event.
    Event(Record),
    /// The adapter reports no more events.
    Ended,
    /// The stop signal was set to this value.
    StopChanged(bool),
}

/// Handles a wakeup of a scan and says whether the scan goes on. A record joins the end
/// of the queue; the scan is over when the adapter has no more events or the stop signal
/// is set.
pub fn monitor_step(event_records: &mut Vec<Record>, wakeup: ScanWakeup) -> (goes_on: bool)
    ensures
        match wakeup {
            ScanWakeup::Event(record) => goes_on && final(event_records)@ == old(
                event_records,
            )@.push(record),
            ScanWakeup::Ended => !goes_on && final(event_records)@ == old(event_records)@,
            ScanWakeup::StopChanged(stop) => goes_on == !stop && final(event_records)@ == old(
                event_records,
            )@,
        },
{
    match wakeup {
        ScanWakeup::Event(record) => {
            event_records.push(record);
            true
        },
        ScanWakeup::Ended => false,
        ScanWakeup::StopChanged(stop) => !stop,
    }
}

} // verus!
