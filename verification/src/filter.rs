//! Which events the configured peripherals let through, and the intervals that they
//! are captured in.

use vstd::prelude::*;
use vstd::hash_map::StringHashMap;
use crate::config::CaptureConfig;
use crate::event::{get_peripheral_id, is_from, peripheral_of, PeripheralId, Record};

verus! {

/// The capture interval of each peripheral, in seconds, under the text of its identity.
pub type Intervals = StringHashMap<u32>;

/// Whether a record comes from one of the configured peripherals.
pub open spec fn is_accepted(configs: Seq<CaptureConfig<PeripheralId>>, record: Record) -> bool {
    exists|i: int| 0 <= i < configs.len() && is_from(record, #[trigger] configs[i].peripheral_id@)
}

/// The interval that the configurations give each peripheral: the last word on a
/// peripheral counts.
pub open spec fn intervals_of(configs: Seq<CaptureConfig<PeripheralId>>) -> Map<Seq<char>, u32>
    decreases configs.len(),
{
    if configs.len() == 0 {
        Map::empty()
    } else {
        intervals_of(configs.drop_last()).insert(
            configs.last().peripheral_id@,
            configs.last().duration_sec,
        )
    }
}

/// Whether a record comes from one of the configured peripherals.
pub fn accepts_event(configs: &Vec<CaptureConfig<PeripheralId>>, event: &Record) -> (accepted: bool)
    ensures
        accepted == is_accepted(configs@, *event),
{
    if let Some(peripheral_id) = get_peripheral_id(&event.1) {
        for i in 0..configs.len()
            invariant
                peripheral_id@ == peripheral_of(event.1)->0@,
                peripheral_of(event.1) is Some,
                forall|j: int|
                    0 <= j < i ==> !is_from(*event, #[trigger] configs@[j].peripheral_id@),
        {
            if configs[i].peripheral_id == peripheral_id {
                assert(is_from(*event, configs@[i as int].peripheral_id@));
                return true;
            }
        }
    }
    false
}

/// A filter that lets through the records of the configured peripherals.
pub fn create_event_filter(data: Vec<CaptureConfig<PeripheralId>>) -> (filter: impl Fn(
    &Record,
) -> bool)
    ensures
        forall|event: &Record| #[trigger] filter.requires((event,)),
        forall|event: &Record, accepted: bool|
            #[trigger] filter.ensures((event,), accepted) ==> accepted == is_accepted(data@, *event),
{
    move |event: &Record| -> (accepted: bool)
        ensures
            accepted == is_accepted(data@, *event),
        { accepts_event(&data, event) }
}

/// The interval of each configured peripheral.
pub fn capture_intervals(configs: &Vec<CaptureConfig<PeripheralId>>) -> (intervals: Intervals)
    ensures
        intervals@ == intervals_of(configs@),
{
    let mut intervals: Intervals = StringHashMap::new();
    assert(configs@.take(0) =~= Seq::empty());
    for i in 0..configs.len()
        invariant
            intervals@ == intervals_of(configs@.take(i as int)),
    {
        let config = &configs[i];
        intervals.insert(config.peripheral_id.text.clone(), config.duration_sec);
        assert(configs@.take(i + 1).drop_last() =~= configs@.take(i as int));
    }
    assert(configs@.take(configs@.len() as int) =~= configs@);
    intervals
}

} // verus!
