//! Events: what a message of the daemon means for adapters, devices and
//! characteristics, and which messages a subscription must ask for.

use vstd::prelude::*;
use vstd::string::*;
use crate::adapter::AdapterId;
use crate::bleuuid::Uuid;
use crate::characteristic::CharacteristicId;
use crate::device::{
    convert_manufacturer_data, convert_service_data, convert_services, copy_bytes, DeviceId,
    kept_uuids, manufacturer_entries, manufacturer_payloads, service_entries, service_payloads,
};
use crate::path::{depth, is_object_path, is_within, within};
use crate::property::{
    bag_view, BagView, bool_at, bytes_at, get_bool, get_bytes, get_i16, get_manufacturer_data,
    get_service_data, get_text_list, has_text, i16_at, manufacturer_data_at, Property,
    service_data_at, text_list_at, texts,
};
use crate::text::same_text;
use crate::walker::{
    ADAPTER_INTERFACE, DEVICE_INTERFACE, Interface, interface_properties, properties_of,
};

verus! {

/// The bus name of the daemon.
pub const BUS_NAME: &'static str = "org.bluez";

/// The interface that every GATT characteristic exposes.
pub const CHARACTERISTIC_INTERFACE: &'static str = "org.bluez.GattCharacteristic1";

/// The interface whose signal reports changed properties.
pub const PROPERTIES_INTERFACE: &'static str = "org.freedesktop.DBus.Properties";

/// The signal that reports changed properties.
pub const PROPERTIES_CHANGED: &'static str = "PropertiesChanged";

/// The interface whose signals report objects that come and go.
pub const OBJECT_MANAGER_INTERFACE: &'static str = "org.freedesktop.DBus.ObjectManager";

/// The signal that reports a new object.
pub const INTERFACES_ADDED: &'static str = "InterfacesAdded";

/// The signal that reports an object that is gone.
pub const INTERFACES_REMOVED: &'static str = "InterfacesRemoved";

/// Details of an event related to a Bluetooth adapter.
#[derive(Copy, Clone, Debug, PartialEq, Eq, Structural)]
pub enum AdapterEvent {
    /// A new adapter has appeared.
    Discovered,
    /// The adapter has been powered on or off.
    Powered { powered: bool },
    /// The adapter is gone.
    Removed,
}

/// Details of an event related to a Bluetooth device.
#[derive(Clone, Debug, PartialEq, Eq)]
pub enum DeviceEvent {
    /// A new device has been discovered.
    Discovered,
    /// The device has connected or disconnected.
    Connected { connected: bool },
    /// A new value is available for the RSSI of the device.
    Rssi { rssi: i16 },
    /// A new value is available for the manufacturer-specific advertisement data of the
    /// device.
    ManufacturerData { manufacturer_data: Vec<(u16, Vec<u8>)> },
    /// New GATT service advertisement data is available for the device.
    ServiceData { service_data: Vec<(Uuid, Vec<u8>)> },
    /// The set of GATT services known for the device has changed.
    Services { services: Vec<Uuid> },
    /// Service discovery has completed.
    ServicesResolved,
    /// The device is gone.
    Removed,
}

/// Details of an event related to a GATT characteristic.
#[derive(Clone, Debug, PartialEq, Eq)]
pub enum CharacteristicEvent {
    /// A new value of the characteristic has been received. This may be from a
    /// notification.
    Value { value: Vec<u8> },
}

/// An event relating to a Bluetooth device or adapter.
#[derive(Clone, Debug, PartialEq, Eq)]
pub enum BluetoothEvent {
    /// An event related to a Bluetooth adapter.
    Adapter { id: AdapterId, event: AdapterEvent },
    /// An event related to a Bluetooth device.
    Device { id: DeviceId, event: DeviceEvent },
    /// An event related to a GATT characteristic of a Bluetooth device.
    Characteristic { id: CharacteristicId, event: CharacteristicEvent },
}

/// What a device event holds.
pub enum DeviceEventView {
    Discovered,
    Connected { connected: bool },
    Rssi { rssi: i16 },
    ManufacturerData { manufacturer_data: Seq<(u16, Seq<u8>)> },
    ServiceData { service_data: Seq<(Uuid, Seq<u8>)> },
    Services { services: Seq<Uuid> },
    ServicesResolved,
    Removed,
}

/// What an event holds: the path of the object that it concerns, and what happened.
pub enum EventView {
    Adapter { id: Seq<char>, event: AdapterEvent },
    Device { id: Seq<char>, event: DeviceEventView },
    Characteristic { id: Seq<char>, value: Seq<u8> },
}

impl View for DeviceEvent {
    type V = DeviceEventView;

    open spec fn view(&self) -> DeviceEventView {
        match self {
            DeviceEvent::Discovered => DeviceEventView::Discovered,
            DeviceEvent::Connected { connected } => DeviceEventView::Connected {
                connected: *connected,
            },
            DeviceEvent::Rssi { rssi } => DeviceEventView::Rssi { rssi: *rssi },
            DeviceEvent::ManufacturerData { manufacturer_data } => {
                DeviceEventView::ManufacturerData {
                    manufacturer_data: manufacturer_payloads(manufacturer_data@),
                }
            },
            DeviceEvent::ServiceData { service_data } => DeviceEventView::ServiceData {
                service_data: service_payloads(service_data@),
            },
            DeviceEvent::Services { services } => DeviceEventView::Services {
                services: services@,
            },
            DeviceEvent::ServicesResolved => DeviceEventView::ServicesResolved,
            DeviceEvent::Removed => DeviceEventView::Removed,
        }
    }
}

impl View for BluetoothEvent {
    type V = EventView;

    open spec fn view(&self) -> EventView {
        match self {
            BluetoothEvent::Adapter { id, event } => EventView::Adapter { id: id@, event: *event },
            BluetoothEvent::Device { id, event } => EventView::Device { id: id@, event: event@ },
            BluetoothEvent::Characteristic { id, event } => match event {
                CharacteristicEvent::Value { value } => EventView::Characteristic {
                    id: id@,
                    value: value@,
                },
            },
        }
    }
}

impl EventView {
    /// The path of the object that the event concerns.
    pub open spec fn path(self) -> Seq<char> {
        match self {
            EventView::Adapter { id, .. } => id,
            EventView::Device { id, .. } => id,
            EventView::Characteristic { id, .. } => id,
        }
    }
}

/// What a list of events holds.
pub open spec fn event_views(events: Seq<BluetoothEvent>) -> Seq<EventView> {
    events.map_values(|e: BluetoothEvent| e@)
}

/// A list of one event, or of none.
pub open spec fn optional(event: Option<EventView>) -> Seq<EventView> {
    match event {
        Some(e) => seq![e],
        None => seq![],
    }
}

/// What an optional event holds.
pub open spec fn held(event: Option<BluetoothEvent>) -> Option<EventView> {
    match event {
        Some(e) => Some(e@),
        None => None,
    }
}

/// Appends `event` to `events` where there is one.
pub fn push_event(events: &mut Vec<BluetoothEvent>, event: Option<BluetoothEvent>)
    ensures
        event_views(final(events)@) == event_views(old(events)@) + optional(held(event)),
{
    match event {
        Some(e) => {
            events.push(e);
            assert(event_views(events@) =~= event_views(old(events)@) + optional(held(event)));
        },
        None => {
            assert(event_views(events@) =~= event_views(old(events)@) + optional(held(event)));
        },
    }
}

/// What a subscription is about.
#[derive(Clone, Debug, PartialEq, Eq)]
pub enum Scope {
    /// Every adapter, device and characteristic.
    All,
    /// One device, with all its characteristics.
    Device(DeviceId),
    /// One characteristic.
    Characteristic(CharacteristicId),
}

/// What a scope holds.
pub enum ScopeView {
    All,
    Device(Seq<char>),
    Characteristic(Seq<char>),
}

impl View for Scope {
    type V = ScopeView;

    open spec fn view(&self) -> ScopeView {
        match self {
            Scope::All => ScopeView::All,
            Scope::Device(id) => ScopeView::Device(id@),
            Scope::Characteristic(id) => ScopeView::Characteristic(id@),
        }
    }
}

impl ScopeView {
    /// The scope is about the object at `path`: any object for the scope of
    /// everything, the device and all below it for a device, the characteristic alone
    /// for a characteristic.
    pub open spec fn covers(self, path: Seq<char>) -> bool {
        match self {
            ScopeView::All => true,
            ScopeView::Device(id) => is_within(path, id),
            ScopeView::Characteristic(id) => path == id,
        }
    }
}

impl Scope {
    /// Tells whether the scope is about the object at `path`.
    pub fn covers(&self, path: &str) -> (covered: bool)
        ensures
            covered == self@.covers(path@),
    {
        match self {
            Scope::All => true,
            Scope::Device(id) => within(path, id.as_str()),
            Scope::Characteristic(id) => same_text(path, id.as_str()),
        }
    }
}

/// A message of the daemon, as far as events are read from it.
#[derive(Clone, Debug, PartialEq, Eq)]
pub enum Message {
    /// Properties of the object at `path` have changed, on the interface `interface`.
    PropertiesChanged { path: String, interface: String, changed: Vec<Property> },
    /// The object at `path` has appeared, or exposes more interfaces than before.
    InterfacesAdded { path: String, interfaces: Vec<Interface> },
    /// The object at `path` is gone, or no longer exposes the interfaces named.
    InterfacesRemoved { path: String, interfaces: Vec<String> },
    /// Any other message.
    Other,
}

/// The events of changed adapter properties: one where the power state is among them.
pub open spec fn adapter_changes(id: Seq<char>, changed: BagView) -> Seq<EventView> {
    optional(
        match bool_at(changed, "Powered"@) {
            Some(powered) => Some(
                EventView::Adapter { id, event: AdapterEvent::Powered { powered } },
            ),
            None => None,
        },
    )
}

/// The event of a changed connection state, if it is among the changes.
pub open spec fn connected_change(id: Seq<char>, changed: BagView) -> Option<EventView> {
    match bool_at(changed, "Connected"@) {
        Some(connected) => Some(
            EventView::Device { id, event: DeviceEventView::Connected { connected } },
        ),
        None => None,
    }
}

/// The event of a changed signal strength, if it is among the changes.
pub open spec fn rssi_change(id: Seq<char>, changed: BagView) -> Option<EventView> {
    match i16_at(changed, "RSSI"@) {
        Some(rssi) => Some(EventView::Device { id, event: DeviceEventView::Rssi { rssi } }),
        None => None,
    }
}

/// The event of changed manufacturer data, if it is among the changes: it holds the
/// well-formed entries.
pub open spec fn manufacturer_data_change(id: Seq<char>, changed: BagView) -> Option<EventView> {
    match manufacturer_data_at(changed, "ManufacturerData"@) {
        Some(data) => Some(
            EventView::Device {
                id,
                event: DeviceEventView::ManufacturerData {
                    manufacturer_data: manufacturer_entries(data),
                },
            },
        ),
        None => None,
    }
}

/// The event of changed service data, if it is among the changes: it holds the
/// well-formed entries.
pub open spec fn service_data_change(id: Seq<char>, changed: BagView) -> Option<EventView> {
    match service_data_at(changed, "ServiceData"@) {
        Some(data) => Some(
            EventView::Device {
                id,
                event: DeviceEventView::ServiceData { service_data: service_entries(data) },
            },
        ),
        None => None,
    }
}

/// The event of a changed list of services, if it is among the changes: it holds the
/// identifiers that parse.
pub open spec fn services_change(id: Seq<char>, changed: BagView) -> Option<EventView> {
    match text_list_at(changed, "UUIDs"@) {
        Some(list) => Some(
            EventView::Device { id, event: DeviceEventView::Services { services: kept_uuids(list) } },
        ),
        None => None,
    }
}

/// The event of finished service discovery, if the changes say that it has finished.
pub open spec fn resolved_change(id: Seq<char>, changed: BagView) -> Option<EventView> {
    if bool_at(changed, "ServicesResolved"@) == Some(true) {
        Some(EventView::Device { id, event: DeviceEventView::ServicesResolved })
    } else {
        None
    }
}

/// The events of changed device properties, one for each property that is tracked, in
/// a fixed order.
pub open spec fn device_changes(id: Seq<char>, changed: BagView) -> Seq<EventView> {
    optional(connected_change(id, changed)) + optional(rssi_change(id, changed)) + optional(
        manufacturer_data_change(id, changed),
    ) + optional(service_data_change(id, changed)) + optional(services_change(id, changed))
        + optional(resolved_change(id, changed))
}

/// The events of changed characteristic properties: one where the value is among them.
pub open spec fn characteristic_changes(id: Seq<char>, changed: BagView) -> Seq<EventView> {
    optional(
        match bytes_at(changed, "Value"@) {
            Some(value) => Some(EventView::Characteristic { id, value }),
            None => None,
        },
    )
}

/// The events of changed properties of the object at `path`, by the interface that
/// they belong to. Properties of other interfaces, and of an object whose path does
/// not suit what the interface stands for, give no event.
pub open spec fn property_changes(path: Seq<char>, interface: Seq<char>, changed: BagView) -> Seq<
    EventView,
> {
    if interface == ADAPTER_INTERFACE@ {
        if is_object_path(path) {
            adapter_changes(path, changed)
        } else {
            seq![]
        }
    } else if interface == DEVICE_INTERFACE@ {
        if is_object_path(path) && depth(path) >= 2 {
            device_changes(path, changed)
        } else {
            seq![]
        }
    } else if interface == CHARACTERISTIC_INTERFACE@ {
        if is_object_path(path) && depth(path) >= 4 {
            characteristic_changes(path, changed)
        } else {
            seq![]
        }
    } else {
        seq![]
    }
}

/// The events of an object that has appeared: a discovered adapter where it exposes
/// the adapter interface, then a discovered device where it exposes the device
/// interface.
pub open spec fn added(path: Seq<char>, interfaces: Seq<Interface>) -> Seq<EventView> {
    optional(
        if properties_of(interfaces, ADAPTER_INTERFACE@) is Some && is_object_path(path) {
            Some(EventView::Adapter { id: path, event: AdapterEvent::Discovered })
        } else {
            None
        },
    ) + optional(
        if properties_of(interfaces, DEVICE_INTERFACE@) is Some && is_object_path(path) && depth(
            path,
        ) >= 2 {
            Some(EventView::Device { id: path, event: DeviceEventView::Discovered })
        } else {
            None
        },
    )
}

/// The events of an object that is gone: a removed adapter where the adapter interface
/// is among those named, then a removed device where the device interface is.
pub open spec fn removed(path: Seq<char>, interfaces: Seq<Seq<char>>) -> Seq<EventView> {
    optional(
        if interfaces.contains(ADAPTER_INTERFACE@) && is_object_path(path) {
            Some(EventView::Adapter { id: path, event: AdapterEvent::Removed })
        } else {
            None
        },
    ) + optional(
        if interfaces.contains(DEVICE_INTERFACE@) && is_object_path(path) && depth(path) >= 2 {
            Some(EventView::Device { id: path, event: DeviceEventView::Removed })
        } else {
            None
        },
    )
}

/// The events that `message` means to a subscription of the given scope. Changed
/// properties count where the scope is about their object; objects that come and go
/// count for the scope of everything alone.
pub open spec fn translated(scope: ScopeView, message: Message) -> Seq<EventView> {
    match message {
        Message::PropertiesChanged { path, interface, changed } => if scope.covers(path@) {
            property_changes(path@, interface@, bag_view(changed@))
        } else {
            seq![]
        },
        Message::InterfacesAdded { path, interfaces } => if scope is All {
            added(path@, interfaces@)
        } else {
            seq![]
        },
        Message::InterfacesRemoved { path, interfaces } => if scope is All {
            removed(path@, texts(interfaces@))
        } else {
            seq![]
        },
        Message::Other => seq![],
    }
}

/// Reads the events of changed adapter properties.
pub fn adapter_events(id: &AdapterId, changed: &Vec<Property>) -> (events: Vec<BluetoothEvent>)
    ensures
        event_views(events@) == adapter_changes(id@, bag_view(changed@)),
{
    let mut events: Vec<BluetoothEvent> = Vec::new();
    assert(event_views(events@) =~= seq![]);
    let powered = match get_bool(changed, "Powered") {
        Some(powered) => Some(
            BluetoothEvent::Adapter { id: id.clone(), event: AdapterEvent::Powered { powered } },
        ),
        None => None,
    };
    push_event(&mut events, powered);
    assert(event_views(events@) =~= adapter_changes(id@, bag_view(changed@)));
    events
}

/// Reads the events of changed device properties.
pub fn device_events(id: &DeviceId, changed: &Vec<Property>) -> (events: Vec<BluetoothEvent>)
    ensures
        event_views(events@) == device_changes(id@, bag_view(changed@)),
{
    let mut events: Vec<BluetoothEvent> = Vec::new();
    assert(event_views(events@) =~= seq![]);
    let connected = match get_bool(changed, "Connected") {
        Some(connected) => Some(
            BluetoothEvent::Device { id: id.clone(), event: DeviceEvent::Connected { connected } },
        ),
        None => None,
    };
    push_event(&mut events, connected);
    assert(event_views(events@) =~= optional(held(connected)));
    let rssi = match get_i16(changed, "RSSI") {
        Some(rssi) => Some(
            BluetoothEvent::Device { id: id.clone(), event: DeviceEvent::Rssi { rssi } },
        ),
        None => None,
    };
    push_event(&mut events, rssi);
    let manufacturer_data = match get_manufacturer_data(changed, "ManufacturerData") {
        Some(data) => Some(
            BluetoothEvent::Device {
                id: id.clone(),
                event: DeviceEvent::ManufacturerData {
                    manufacturer_data: convert_manufacturer_data(data),
                },
            },
        ),
        None => None,
    };
    push_event(&mut events, manufacturer_data);
    let service_data = match get_service_data(changed, "ServiceData") {
        Some(data) => Some(
            BluetoothEvent::Device {
                id: id.clone(),
                event: DeviceEvent::ServiceData { service_data: convert_service_data(data) },
            },
        ),
        None => None,
    };
    push_event(&mut events, service_data);
    let services = match get_text_list(changed, "UUIDs") {
        Some(list) => Some(
            BluetoothEvent::Device {
                id: id.clone(),
                event: DeviceEvent::Services { services: convert_services(list) },
            },
        ),
        None => None,
    };
    push_event(&mut events, services);
    let resolved = match get_bool(changed, "ServicesResolved") {
        Some(true) => Some(
            BluetoothEvent::Device { id: id.clone(), event: DeviceEvent::ServicesResolved },
        ),
        _ => None,
    };
    push_event(&mut events, resolved);
    events
}

/// Reads the events of changed characteristic properties.
pub fn characteristic_events(id: &CharacteristicId, changed: &Vec<Property>) -> (events: Vec<
    BluetoothEvent,
>)
    ensures
        event_views(events@) == characteristic_changes(id@, bag_view(changed@)),
{
    let mut events: Vec<BluetoothEvent> = Vec::new();
    assert(event_views(events@) =~= seq![]);
    let value = match get_bytes(changed, "Value") {
        Some(value) => Some(
            BluetoothEvent::Characteristic {
                id: id.clone(),
                event: CharacteristicEvent::Value { value: copy_bytes(value) },
            },
        ),
        None => None,
    };
    push_event(&mut events, value);
    assert(event_views(events@) =~= characteristic_changes(id@, bag_view(changed@)));
    events
}

/// Reads the events of changed properties of the object at `path`, by the interface
/// that they belong to.
pub fn properties_changed_to_events(path: &str, interface: &str, changed: &Vec<Property>) -> (events:
    Vec<BluetoothEvent>)
    ensures
        event_views(events@) == property_changes(path@, interface@, bag_view(changed@)),
{
    let mut events: Vec<BluetoothEvent> = Vec::new();
    assert(event_views(events@) =~= seq![]);
    if same_text(interface, ADAPTER_INTERFACE) {
        if let Some(id) = AdapterId::new(path) {
            events = adapter_events(&id, changed);
        }
    } else if same_text(interface, DEVICE_INTERFACE) {
        if let Some(id) = DeviceId::new(path) {
            events = device_events(&id, changed);
        }
    } else if same_text(interface, CHARACTERISTIC_INTERFACE) {
        if let Some(id) = CharacteristicId::new(path) {
            events = characteristic_events(&id, changed);
        }
    }
    events
}

/// Reads the events of an object that has appeared at `path` with `interfaces`.
pub fn interfaces_added_to_events(path: &str, interfaces: &Vec<Interface>) -> (events: Vec<
    BluetoothEvent,
>)
    ensures
        event_views(events@) == added(path@, interfaces@),
{
    let mut events: Vec<BluetoothEvent> = Vec::new();
    assert(event_views(events@) =~= seq![]);
    let adapter = if interface_properties(interfaces, ADAPTER_INTERFACE).is_some() {
        match AdapterId::new(path) {
            Some(id) => Some(BluetoothEvent::Adapter { id, event: AdapterEvent::Discovered }),
            None => None,
        }
    } else {
        None
    };
    push_event(&mut events, adapter);
    assert(event_views(events@) =~= optional(held(adapter)));
    let device = if interface_properties(interfaces, DEVICE_INTERFACE).is_some() {
        match DeviceId::new(path) {
            Some(id) => Some(BluetoothEvent::Device { id, event: DeviceEvent::Discovered }),
            None => None,
        }
    } else {
        None
    };
    push_event(&mut events, device);
    events
}

/// Reads the events of an object at `path` that no longer exposes `interfaces`.
pub fn interfaces_removed_to_events(path: &str, interfaces: &Vec<String>) -> (events: Vec<
    BluetoothEvent,
>)
    ensures
        event_views(events@) == removed(path@, texts(interfaces@)),
{
    let mut events: Vec<BluetoothEvent> = Vec::new();
    assert(event_views(events@) =~= seq![]);
    let adapter = if has_text(interfaces, ADAPTER_INTERFACE) {
        match AdapterId::new(path) {
            Some(id) => Some(BluetoothEvent::Adapter { id, event: AdapterEvent::Removed }),
            None => None,
        }
    } else {
        None
    };
    push_event(&mut events, adapter);
    assert(event_views(events@) =~= optional(held(adapter)));
    let device = if has_text(interfaces, DEVICE_INTERFACE) {
        match DeviceId::new(path) {
            Some(id) => Some(BluetoothEvent::Device { id, event: DeviceEvent::Removed }),
            None => None,
        }
    } else {
        None
    };
    push_event(&mut events, device);
    events
}

/// Translates one message of the daemon into the events that it means to a
/// subscription of the given scope, in order. A message that means nothing to it gives
/// no event.
pub fn message_to_events(scope: &Scope, message: &Message) -> (events: Vec<BluetoothEvent>)
    ensures
        event_views(events@) == translated(scope@, *message),
{
    let mut events: Vec<BluetoothEvent> = Vec::new();
    assert(event_views(events@) =~= seq![]);
    match message {
        Message::PropertiesChanged { path, interface, changed } => {
            if scope.covers(path.as_str()) {
                events = properties_changed_to_events(path.as_str(), interface.as_str(), changed);
            }
        },
        Message::InterfacesAdded { path, interfaces } => {
            if let Scope::All = scope {
                events = interfaces_added_to_events(path.as_str(), interfaces);
            }
        },
        Message::InterfacesRemoved { path, interfaces } => {
            if let Scope::All = scope {
                events = interfaces_removed_to_events(path.as_str(), interfaces);
            }
        },
        Message::Other => {},
    }
    events
}

/// The events of a run of messages: those of each message, in the order in which the
/// messages came.
pub open spec fn translated_all(scope: ScopeView, messages: Seq<Message>) -> Seq<EventView>
    decreases messages.len(),
{
    if messages.len() == 0 {
        seq![]
    } else {
        translated_all(scope, messages.drop_last()) + translated(scope, messages.last())
    }
}

/// Translates a run of messages, in the order in which they came, into one run of
/// events: no event overtakes another.
pub fn messages_to_events(scope: &Scope, messages: &Vec<Message>) -> (events: Vec<BluetoothEvent>)
    ensures
        event_views(events@) == translated_all(scope@, messages@),
{
    let mut events: Vec<BluetoothEvent> = Vec::new();
    let mut i: usize = 0;
    assert(event_views(events@) =~= seq![]);
    while i < messages.len()
        invariant
            i <= messages.len(),
            event_views(events@) == translated_all(scope@, messages@.subrange(0, i as int)),
        decreases messages.len() - i,
    {
        proof {
            assert(messages@.subrange(0, i + 1).drop_last() =~= messages@.subrange(0, i as int));
        }
        let ghost before = events@;
        let mut more = message_to_events(scope, &messages[i]);
        let ghost added = more@;
        events.append(&mut more);
        assert(event_views(events@) =~= event_views(before) + event_views(added));
        i += 1;
    }
    assert(messages@.subrange(0, i as int) =~= messages@);
    events
}

/// Every event that a message gives concerns an object that the scope is about.
pub proof fn lemma_events_in_scope(scope: ScopeView, message: Message)
    ensures
        forall|i: int|
            0 <= i < translated(scope, message).len() ==> scope.covers(
                (#[trigger] translated(scope, message)[i]).path(),
            ),
{
    let events = translated(scope, message);
    assert forall|i: int| 0 <= i < events.len() implies scope.covers(
        (#[trigger] events[i]).path(),
    ) by {
        match message {
            Message::PropertiesChanged { path, interface, changed } => {
                lemma_changes_concern(path@, interface@, bag_view(changed@));
            },
            _ => {},
        }
    }
}

/// Every event that a run of messages gives concerns an object that the scope is
/// about: a subscription never hears of anything else.
pub proof fn lemma_stream_in_scope(scope: ScopeView, messages: Seq<Message>)
    ensures
        forall|i: int|
            0 <= i < translated_all(scope, messages).len() ==> scope.covers(
                (#[trigger] translated_all(scope, messages)[i]).path(),
            ),
    decreases messages.len(),
{
    if messages.len() > 0 {
        lemma_stream_in_scope(scope, messages.drop_last());
        lemma_events_in_scope(scope, messages.last());
        let front = translated_all(scope, messages.drop_last());
        let last = translated(scope, messages.last());
        assert forall|i: int| 0 <= i < (front + last).len() implies scope.covers(
            (#[trigger] (front + last)[i]).path(),
        ) by {
            if i < front.len() {
                assert((front + last)[i] == front[i]);
            } else {
                assert((front + last)[i] == last[i - front.len()]);
            }
        }
    }
}

/// Every event of the list concerns the object at `path`.
pub open spec fn concern(events: Seq<EventView>, path: Seq<char>) -> bool {
    forall|i: int| 0 <= i < events.len() ==> (#[trigger] events[i]).path() == path
}

/// Two lists about one object make one list about it.
proof fn lemma_concern_more(events: Seq<EventView>, event: Option<EventView>, path: Seq<char>)
    requires
        concern(events, path),
        event matches Some(e) ==> e.path() == path,
    ensures
        concern(events + optional(event), path),
{
}

/// Every event of changed properties concerns the object whose properties changed.
pub proof fn lemma_changes_concern(path: Seq<char>, interface: Seq<char>, changed: BagView)
    ensures
        concern(property_changes(path, interface, changed), path),
{
    let none = Seq::<EventView>::empty();
    if interface == ADAPTER_INTERFACE@ {
    } else if interface == DEVICE_INTERFACE@ {
        let a = optional(connected_change(path, changed));
        let b = a + optional(rssi_change(path, changed));
        let c = b + optional(manufacturer_data_change(path, changed));
        let d = c + optional(service_data_change(path, changed));
        let e = d + optional(services_change(path, changed));
        lemma_concern_more(a, rssi_change(path, changed), path);
        lemma_concern_more(b, manufacturer_data_change(path, changed), path);
        lemma_concern_more(c, service_data_change(path, changed), path);
        lemma_concern_more(d, services_change(path, changed), path);
        lemma_concern_more(e, resolved_change(path, changed), path);
    } else if interface == CHARACTERISTIC_INTERFACE@ {
    }
}

/// Changed properties of an object that the scope is not about give no event: a
/// subscription to one characteristic hears nothing of any other object.
pub proof fn lemma_out_of_scope(scope: ScopeView, message: Message)
    requires
        message matches Message::PropertiesChanged { path, .. } && !scope.covers(path@),
    ensures
        translated(scope, message) == Seq::<EventView>::empty(),
{
}

/// A rule by which a subscription asks the bus for signals.
#[derive(Clone, Debug, PartialEq, Eq)]
pub struct MatchRule {
    /// The interface of the signal.
    pub interface: String,
    /// The name of the signal.
    pub member: String,
    /// The bus name that must have sent it.
    pub sender: String,
    /// The object that it must come from, if only one will do.
    pub path: Option<String>,
    /// Whether the objects below `path` will do as well.
    pub path_is_namespace: bool,
}

/// What a match rule holds.
pub struct MatchRuleView {
    pub interface: Seq<char>,
    pub member: Seq<char>,
    pub sender: Seq<char>,
    pub path: Option<Seq<char>>,
    pub path_is_namespace: bool,
}

impl View for MatchRule {
    type V = MatchRuleView;

    open spec fn view(&self) -> MatchRuleView {
        MatchRuleView {
            interface: self.interface@,
            member: self.member@,
            sender: self.sender@,
            path: match self.path {
                Some(path) => Some(path@),
                None => None,
            },
            path_is_namespace: self.path_is_namespace,
        }
    }
}

/// What a list of match rules holds.
pub open spec fn rule_views(rules: Seq<MatchRule>) -> Seq<MatchRuleView> {
    rules.map_values(|r: MatchRule| r@)
}

/// The rule for a signal of the daemon, from everywhere or from `path` and below.
pub open spec fn signal_rule(interface: Seq<char>, member: Seq<char>, path: Option<Seq<char>>) -> MatchRuleView {
    MatchRuleView {
        interface,
        member,
        sender: BUS_NAME@,
        path,
        path_is_namespace: path is Some,
    }
}

/// The rules that a subscription of the given scope registers: for everything, the
/// signals for objects that come and go and for changed properties anywhere; for a
/// device or a characteristic, changed properties of that object and below.
pub open spec fn rules_for(scope: ScopeView) -> Seq<MatchRuleView> {
    match scope {
        ScopeView::All => seq![
            signal_rule(OBJECT_MANAGER_INTERFACE@, INTERFACES_ADDED@, None),
            signal_rule(OBJECT_MANAGER_INTERFACE@, INTERFACES_REMOVED@, None),
            signal_rule(PROPERTIES_INTERFACE@, PROPERTIES_CHANGED@, None),
        ],
        ScopeView::Device(id) => seq![
            signal_rule(PROPERTIES_INTERFACE@, PROPERTIES_CHANGED@, Some(id)),
        ],
        ScopeView::Characteristic(id) => seq![
            signal_rule(PROPERTIES_INTERFACE@, PROPERTIES_CHANGED@, Some(id)),
        ],
    }
}

impl MatchRuleView {
    /// The rule lets a signal from the object at `path` through.
    pub open spec fn admits_path(self, path: Seq<char>) -> bool {
        match self.path {
            None => true,
            Some(root) => if self.path_is_namespace {
                is_within(path, root)
            } else {
                path == root
            },
        }
    }

    /// The rule lets `message` through. The signals for objects that come and go are
    /// sent by the object manager, so only a rule without a path lets them through.
    pub open spec fn admits(self, message: Message) -> bool {
        match message {
            Message::PropertiesChanged { path, .. } => {
                &&& self.interface == PROPERTIES_INTERFACE@
                &&& self.member == PROPERTIES_CHANGED@
                &&& self.admits_path(path@)
            },
            Message::InterfacesAdded { .. } => {
                &&& self.interface == OBJECT_MANAGER_INTERFACE@
                &&& self.member == INTERFACES_ADDED@
                &&& self.path is None
            },
            Message::InterfacesRemoved { .. } => {
                &&& self.interface == OBJECT_MANAGER_INTERFACE@
                &&& self.member == INTERFACES_REMOVED@
                &&& self.path is None
            },
            Message::Other => false,
        }
    }
}

/// Makes the rule for a signal of the daemon, from everywhere or from `path` and
/// below.
pub fn new_signal_rule(interface: &str, member: &str, path: Option<&str>) -> (rule: MatchRule)
    ensures
        rule@ == signal_rule(
            interface@,
            member@,
            match path {
                Some(p) => Some(p@),
                None => None,
            },
        ),
{
    let (path, path_is_namespace) = match path {
        Some(p) => (Some(p.to_owned()), true),
        None => (None, false),
    };
    MatchRule {
        interface: interface.to_owned(),
        member: member.to_owned(),
        sender: BUS_NAME.to_owned(),
        path,
        path_is_namespace,
    }
}

/// Returns the rules that a subscription of the given scope registers with the bus.
pub fn match_rules(scope: &Scope) -> (rules: Vec<MatchRule>)
    ensures
        rule_views(rules@) == rules_for(scope@),
{
    let mut rules: Vec<MatchRule> = Vec::new();
    let path = match scope {
        Scope::All => {
            rules.push(new_signal_rule(OBJECT_MANAGER_INTERFACE, INTERFACES_ADDED, None));
            rules.push(new_signal_rule(OBJECT_MANAGER_INTERFACE, INTERFACES_REMOVED, None));
            None
        },
        Scope::Device(id) => Some(id.as_str()),
        Scope::Characteristic(id) => Some(id.as_str()),
    };
    rules.push(new_signal_rule(PROPERTIES_INTERFACE, PROPERTIES_CHANGED, path));
    assert(rule_views(rules@) =~= rules_for(scope@));
    rules
}

/// The rules of a scope let through every message that means an event to it.
pub proof fn lemma_rules_cover(scope: ScopeView, message: Message)
    requires
        translated(scope, message).len() > 0,
    ensures
        exists|i: int|
            0 <= i < rules_for(scope).len() && (#[trigger] rules_for(scope)[i]).admits(message),
{
    let rules = rules_for(scope);
    match message {
        Message::PropertiesChanged { path, .. } => {
            let last = rules.len() - 1;
            assert(rules[last].admits(message));
        },
        Message::InterfacesAdded { .. } => {
            assert(rules[0].admits(message));
        },
        Message::InterfacesRemoved { .. } => {
            assert(rules[1].admits(message));
        },
        Message::Other => {},
    }
}

} // verus!
