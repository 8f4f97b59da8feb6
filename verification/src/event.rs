//! Advertisement events as a Bluetooth adapter reports them.

use vstd::prelude::*;
use std::collections::HashMap;
use std::sync::Arc;
use crate::timestamp::Timestamp;

verus! {

/// The identity of a peripheral, in the text form that the platform gives it.
#[derive(Debug)]
pub struct PeripheralId {
    pub text: String,
}

impl View for PeripheralId {
    type V = Seq<char>;

    open spec fn view(&self) -> Seq<char> {
        self.text@
    }
}

impl PartialEq for PeripheralId {
    fn eq(&self, other: &Self) -> (equal: bool) {
        self.text == other.text
    }
}

impl vstd::std_specs::cmp::PartialEqSpecImpl for PeripheralId {
    open spec fn obeys_eq_spec() -> bool {
        true
    }

    open spec fn eq_spec(&self, other: &Self) -> bool {
        self@ == other@
    }
}

impl Eq for PeripheralId {

}

impl Clone for PeripheralId {
    fn clone(&self) -> (copy: Self)
        ensures
            copy == *self,
    {
        PeripheralId { text: self.text.clone() }
    }
}

/// The power state of the adapter.
#[derive(Clone, Copy, Debug, PartialEq, Eq, Structural)]
pub enum CentralState {
    Unknown,
    PoweredOn,
    PoweredOff,
}

/// An event of the adapter. What an advertisement carries is shared, so that copies of
/// an event are cheap.
#[derive(Debug, PartialEq, Eq)]
pub enum CentralEvent {
    DeviceDiscovered(PeripheralId),
    DeviceUpdated(PeripheralId),
    DeviceConnected(PeripheralId),
    DeviceDisconnected(PeripheralId),
    /// Data under the company identifiers of manufacturers.
    ManufacturerDataAdvertisement {
        id: PeripheralId,
        manufacturer_data: Arc<HashMap<u16, Vec<u8>>>,
    },
    /// Data under the UUIDs of services.
    ServiceDataAdvertisement {
        id: PeripheralId,
        service_data: Arc<HashMap<u128, Vec<u8>>>,
    },
    /// The UUIDs of the services that the peripheral offers.
    ServicesAdvertisement {
        id: PeripheralId,
        services: Arc<Vec<u128>>,
    },
    StateUpdate(CentralState),
}

/// An event and when it arrived.
pub type Record = (Timestamp, CentralEvent);

impl Clone for CentralEvent {
    fn clone(&self) -> (copy: Self)
        ensures
            copy == *self,
    {
        match self {
            CentralEvent::DeviceDiscovered(id) => CentralEvent::DeviceDiscovered(id.clone()),
            CentralEvent::DeviceUpdated(id) => CentralEvent::DeviceUpdated(id.clone()),
            CentralEvent::DeviceConnected(id) => CentralEvent::DeviceConnected(id.clone()),
            CentralEvent::DeviceDisconnected(id) => CentralEvent::DeviceDisconnected(id.clone()),
            CentralEvent::ManufacturerDataAdvertisement { id, manufacturer_data } => {
                CentralEvent::ManufacturerDataAdvertisement {
                    id: id.clone(),
                    manufacturer_data: manufacturer_data.clone(),
                }
            },
            CentralEvent::ServiceDataAdvertisement { id, service_data } => {
                CentralEvent::ServiceDataAdvertisement {
                    id: id.clone(),
                    service_data: service_data.clone(),
                }
            },
            CentralEvent::ServicesAdvertisement { id, services } => {
                CentralEvent::ServicesAdvertisement { id: id.clone(), services: services.clone() }
            },
            CentralEvent::StateUpdate(state) => CentralEvent::StateUpdate(*state),
        }
    }
}

/// The kinds of events.
#[derive(Clone, Copy, Debug, PartialEq, Eq, Hash, Structural)]
pub enum MessageType {
    ManufacturerDataAdvertisement,
    ServicesAdvertisement,
    ServiceDataAdvertisement,
    DeviceDiscovered,
    DeviceConnected,
    DeviceDisconnected,
    DeviceUpdated,
    StateUpdate,
}

/// The peripheral that an event tells of: every event has one but a state update,
/// which is about the adapter itself.
pub open spec fn peripheral_of(event: CentralEvent) -> Option<PeripheralId> {
    match event {
        CentralEvent::DeviceDiscovered(id) => Some(id),
        CentralEvent::DeviceUpdated(id) => Some(id),
        CentralEvent::DeviceConnected(id) => Some(id),
        CentralEvent::DeviceDisconnected(id) => Some(id),
        CentralEvent::ManufacturerDataAdvertisement { id, .. } => Some(id),
        CentralEvent::ServiceDataAdvertisement { id, .. } => Some(id),
        CentralEvent::ServicesAdvertisement { id, .. } => Some(id),
        CentralEvent::StateUpdate(_) => None,
    }
}

/// Whether a record tells of the peripheral with the given identity.
pub open spec fn is_from(record: Record, id: Seq<char>) -> bool {
    peripheral_of(record.1) is Some && peripheral_of(record.1)->0@ == id
}

/// The records that tell of the peripheral with the given identity, in order.
pub open spec fn records_of(records: Seq<Record>, id: Seq<char>) -> Seq<Record> {
    records.filter(|record: Record| is_from(record, id))
}

/// The kind of an event.
pub open spec fn type_of(event: CentralEvent) -> MessageType {
    match event {
        CentralEvent::DeviceDiscovered(_) => MessageType::DeviceDiscovered,
        CentralEvent::DeviceUpdated(_) => MessageType::DeviceUpdated,
        CentralEvent::DeviceConnected(_) => MessageType::DeviceConnected,
        CentralEvent::DeviceDisconnected(_) => MessageType::DeviceDisconnected,
        CentralEvent::ManufacturerDataAdvertisement { .. } => {
            MessageType::ManufacturerDataAdvertisement
        },
        CentralEvent::ServiceDataAdvertisement { .. } => MessageType::ServiceDataAdvertisement,
        CentralEvent::ServicesAdvertisement { .. } => MessageType::ServicesAdvertisement,
        CentralEvent::StateUpdate(_) => MessageType::StateUpdate,
    }
}

/// The peripheral that an event tells of, or `None` for a state update.
pub fn get_peripheral_id(event: &CentralEvent) -> (id: Option<PeripheralId>)
    ensures
        id == peripheral_of(*event),
        id is None <==> *event is StateUpdate,
{
    match event {
        CentralEvent::ManufacturerDataAdvertisement { id, .. } => Some(id.clone()),
        CentralEvent::ServicesAdvertisement { id, .. } => Some(id.clone()),
        CentralEvent::ServiceDataAdvertisement { id, .. } => Some(id.clone()),
        CentralEvent::DeviceDiscovered(id) => Some(id.clone()),
        CentralEvent::DeviceConnected(id) => Some(id.clone()),
        CentralEvent::DeviceDisconnected(id) => Some(id.clone()),
        CentralEvent::DeviceUpdated(id) => Some(id.clone()),
        CentralEvent::StateUpdate(_) => None,
    }
}

/// The kind of an event.
pub fn get_message_type(event: &CentralEvent) -> (message_type: MessageType)
    ensures
        message_type == type_of(*event),
{
    match event {
        CentralEvent::ManufacturerDataAdvertisement { .. } => {
            MessageType::ManufacturerDataAdvertisement
        },
        CentralEvent::ServicesAdvertisement { .. } => MessageType::ServicesAdvertisement,
        CentralEvent::ServiceDataAdvertisement { .. } => MessageType::ServiceDataAdvertisement,
        CentralEvent::DeviceDiscovered(_) => MessageType::DeviceDiscovered,
        CentralEvent::DeviceConnected(_) => MessageType::DeviceConnected,
        CentralEvent::DeviceDisconnected(_) => MessageType::DeviceDisconnected,
        CentralEvent::DeviceUpdated(_) => MessageType::DeviceUpdated,
        CentralEvent::StateUpdate(_) => MessageType::StateUpdate,
    }
}

} // verus!
