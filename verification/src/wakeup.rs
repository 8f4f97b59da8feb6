//! What drives a running capture or report: the passing of time and the stop signal.

use vstd::prelude::*;
use crate::event::Record;

verus! {

/// What a running capture or report wakes up for.
#[derive(Debug)]
pub enum Wakeup {
    /// It is time to handle the records that have arrived, in the order of their arrival.
    Tick(Vec<Record>),
    /// The stop signal was set to this value.
    StopChanged(bool),
}

/// The records of all the ticks, in the order of the ticks.
pub open spec fn arrivals(wakeups: Seq<Wakeup>) -> Seq<Record>
    decreases wakeups.len(),
{
    if wakeups.len() == 0 {
        Seq::empty()
    } else {
        match wakeups[0] {
            Wakeup::Tick(records) => records@ + arrivals(wakeups.drop_first()),
            Wakeup::StopChanged(_) => arrivals(wakeups.drop_first()),
        }
    }
}

/// Whether the stop signal is set to true for the first time at the wakeup `stop`.
pub open spec fn is_first_stop(wakeups: Seq<Wakeup>, stop: int) -> bool {
    &&& 0 <= stop < wakeups.len()
    &&& wakeups[stop] == Wakeup::StopChanged(true)
    &&& forall|i: int| 0 <= i < stop ==> (#[trigger] wakeups[i]) != Wakeup::StopChanged(true)
}

} // verus!
