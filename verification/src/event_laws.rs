//! What holds of every event and every point in time.

use vstd::prelude::*;
use vstd::std_specs::cmp::PartialEqSpec;
use std::collections::HashMap;
use std::sync::Arc;
use crate::event::{
    is_from, peripheral_of, records_of, type_of, CentralEvent, CentralState, MessageType,
    PeripheralId, Record,
};
use crate::timestamp::{elapsed_nanos, representable, Timestamp};

verus! {

/// An event tells of the peripheral that it carries, whatever else it carries; a state
/// update tells of none.
pub proof fn law_events_tell_of_the_peripheral_they_carry(
    id: PeripheralId,
    manufacturer_data: Arc<HashMap<u16, Vec<u8>>>,
    service_data: Arc<HashMap<u128, Vec<u8>>>,
    services: Arc<Vec<u128>>,
    state: CentralState,
)
    ensures
        peripheral_of(CentralEvent::DeviceDiscovered(id)) == Some(id),
        peripheral_of(CentralEvent::DeviceUpdated(id)) == Some(id),
        peripheral_of(CentralEvent::DeviceConnected(id)) == Some(id),
        peripheral_of(CentralEvent::DeviceDisconnected(id)) == Some(id),
        peripheral_of(CentralEvent::ManufacturerDataAdvertisement { id, manufacturer_data })
            == Some(id),
        peripheral_of(CentralEvent::ServiceDataAdvertisement { id, service_data }) == Some(id),
        peripheral_of(CentralEvent::ServicesAdvertisement { id, services }) == Some(id),
        peripheral_of(CentralEvent::StateUpdate(state)) is None,
{
}

/// Only a state update tells of no peripheral.
pub proof fn law_only_state_updates_tell_of_no_peripheral(event: CentralEvent)
    ensures
        peripheral_of(event) is None <==> event is StateUpdate,
{
}

/// The kind of an event does not depend on what the event carries.
pub proof fn law_kinds_do_not_depend_on_the_content(
    id: PeripheralId,
    manufacturer_data: Arc<HashMap<u16, Vec<u8>>>,
    service_data: Arc<HashMap<u128, Vec<u8>>>,
    services: Arc<Vec<u128>>,
    state: CentralState,
)
    ensures
        type_of(CentralEvent::DeviceDiscovered(id)) == MessageType::DeviceDiscovered,
        type_of(CentralEvent::DeviceUpdated(id)) == MessageType::DeviceUpdated,
        type_of(CentralEvent::DeviceConnected(id)) == MessageType::DeviceConnected,
        type_of(CentralEvent::DeviceDisconnected(id)) == MessageType::DeviceDisconnected,
        type_of(CentralEvent::ManufacturerDataAdvertisement { id, manufacturer_data })
            == MessageType::ManufacturerDataAdvertisement,
        type_of(CentralEvent::ServiceDataAdvertisement { id, service_data })
            == MessageType::ServiceDataAdvertisement,
        type_of(CentralEvent::ServicesAdvertisement { id, services })
            == MessageType::ServicesAdvertisement,
        type_of(CentralEvent::StateUpdate(state)) == MessageType::StateUpdate,
{
}

/// A peripheral is known by the whole text of its identity: two identities are equal
/// exactly if their texts are.
pub proof fn law_identity_is_the_text(first: PeripheralId, second: PeripheralId)
    ensures
        first@ == first.text@,
        first.eq_spec(&second) <==> first.text@ == second.text@,
{
}

/// Whether a record comes from a peripheral is a matter of its identity alone: neither
/// the time nor the rest of the event counts.
pub proof fn law_origin_is_the_identity(time: Timestamp, event: CentralEvent, id: Seq<char>)
    ensures
        is_from((time, event), id) <==> peripheral_of(event) is Some && peripheral_of(
            event,
        )->0.text@ == id,
        event is StateUpdate ==> !is_from((time, event), id),
{
}

/// One more record is one more record of its own peripheral, at the end, and of no other.
pub proof fn law_records_of_a_peripheral_add_up(
    records: Seq<Record>,
    record: Record,
    owner: PeripheralId,
    id: Seq<char>,
)
    requires
        peripheral_of(record.1) == Some(owner),
    ensures
        records_of(Seq::empty(), id) == Seq::<Record>::empty(),
        owner.text@ == id ==> records_of(records.push(record), id) == records_of(records, id).push(
            record,
        ),
        owner.text@ != id ==> records_of(records.push(record), id) == records_of(records, id),
{
    reveal(Seq::filter);
    assert(records.push(record).drop_last() =~= records);
}

/// Every second in the range of the calendar is representable with every nanosecond in
/// it; past the full second only the last second of a minute goes on.
pub proof fn law_representable_times(secs: int, nanos: int)
    ensures
        -8_334_601_228_800 <= secs <= 8_210_266_876_799 && 0 <= nanos < 1_000_000_000
            ==> representable(secs, nanos),
        -8_334_601_228_800 <= secs <= 8_210_266_876_799 && 1_000_000_000 <= nanos < 2_000_000_000
            ==> (representable(secs, nanos) <==> (secs + 1) % 60 == 0),
        secs < -8_334_601_228_800 || secs > 8_210_266_876_799 ==> !representable(secs, nanos),
        nanos < 0 || nanos >= 2_000_000_000 ==> !representable(secs, nanos),
{
}

/// Outside leap seconds, the time that passes between two points is the difference of
/// their nanoseconds since the epoch.
pub proof fn law_elapsed_time_is_the_difference(later: (int, int), earlier: (int, int))
    requires
        later.1 < 1_000_000_000,
        earlier.1 < 1_000_000_000,
    ensures
        elapsed_nanos(later, earlier) == (later.0 * 1_000_000_000 + later.1) - (earlier.0
            * 1_000_000_000 + earlier.1),
{
}

/// Looked at from the other end, the time between two points changes its sign.
pub proof fn law_elapsed_time_has_a_direction(first: (int, int), second: (int, int))
    ensures
        elapsed_nanos(first, second) == -elapsed_nanos(second, first),
        elapsed_nanos(first, first) == 0,
{
}

/// A point in a leap second lies a second after the same point in the second before it,
/// as seen from any point that is not later in the day. From a point that is later in the
/// day the leap second has been counted, and the two are equally far away.
pub proof fn law_leap_seconds_count(second: int, nanos: int, other: (int, int))
    requires
        0 <= nanos < 1_000_000_000,
    ensures
        other.0 % 86_400 <= second % 86_400 ==> elapsed_nanos(
            (second, 1_000_000_000 + nanos),
            other,
        ) == elapsed_nanos((second, nanos), other) + 1_000_000_000,
        other.0 % 86_400 > second % 86_400 ==> elapsed_nanos(
            (second, 1_000_000_000 + nanos),
            other,
        ) == elapsed_nanos((second, nanos), other),
{
}

} // verus!
