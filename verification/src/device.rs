//! Identifiers of Bluetooth devices.

use core::cmp::Ordering;
use vstd::prelude::*;
use vstd::string::*;
use crate::adapter::{AdapterId, ROOT_PREFIX};
use crate::bleuuid::Uuid;
use crate::error::BluetoothError;
use crate::macaddress::MacAddress;
use crate::path::{
    child_of, child_text, depth, is_object_path, is_segment, lemma_child, lemma_depth_positive,
    lemma_parent, parent_of, parent_text, path_depth, segment_text, strip_root, stripped,
};
use crate::property::{
    bag_view, BagView, bool_at, get_bool, get_i16, get_manufacturer_data, get_service_data,
    get_text, get_text_list, get_u16, i16_at, manufacturer_data_at, manufacturer_view, Payload,
    Property, service_data_at, service_view, text_at, text_list_at, texts, u16_at,
};
use crate::text::{compare_text, starts_with, text_order};

verus! {

/// The prefix that the daemon gives to the node name of every device.
pub const DEVICE_PREFIX: &'static str = "dev_";

/// Opaque identifier for a device which has been discovered.
#[derive(Debug, Eq, Hash, Ord)]
pub struct DeviceId {
    object_path: String,
}

impl View for DeviceId {
    type V = Seq<char>;

    /// The object path that the identifier stands for.
    closed spec fn view(&self) -> Seq<char> {
        self.object_path@
    }
}

impl Clone for DeviceId {
    fn clone(&self) -> (copy: Self)
        ensures
            copy == *self,
    {
        proof {
            use_type_invariant(self);
        }
        DeviceId { object_path: self.object_path.clone() }
    }
}

impl PartialEq for DeviceId {
    fn eq(&self, other: &Self) -> (same: bool) {
        self.object_path == other.object_path
    }
}

impl vstd::std_specs::cmp::PartialEqSpecImpl for DeviceId {
    open spec fn obeys_eq_spec() -> bool {
        true
    }

    open spec fn eq_spec(&self, other: &Self) -> bool {
        self@ == other@
    }
}

impl PartialOrd for DeviceId {
    fn partial_cmp(&self, other: &Self) -> (order: Option<Ordering>) {
        Some(compare_text(self.object_path.as_str(), other.object_path.as_str()))
    }
}

impl vstd::std_specs::cmp::PartialOrdSpecImpl for DeviceId {
    open spec fn obeys_partial_cmp_spec() -> bool {
        true
    }

    /// Identifiers are ordered as their paths are.
    open spec fn partial_cmp_spec(&self, other: &Self) -> Option<Ordering> {
        Some(text_order(self@, other@))
    }
}

impl DeviceId {
    /// A device identifier holds an object path of two segments or more, so that
    /// every container above it has a path of its own.
    pub open spec fn wf(&self) -> bool {
        is_object_path(self@) && depth(self@) >= 2
    }

    #[verifier::type_invariant]
    spec fn inv(&self) -> bool {
        self.wf()
    }

    /// A node name that the daemon gives to a device: a path segment that begins
    /// with the device prefix.
    pub open spec fn is_node_name(name: Seq<char>) -> bool {
        is_segment(name) && DEVICE_PREFIX@.is_prefix_of(name)
    }

    /// Makes the identifier of the device at `object_path`, or `None` where that is no
    /// object path of two segments or more.
    pub fn new(object_path: &str) -> (id: Option<DeviceId>)
        ensures
            id is Some <==> is_object_path(object_path@) && depth(object_path@) >= 2,
            id matches Some(d) ==> d@ == object_path@ && d.wf(),
    {
        match path_depth(object_path) {
            Some(d) => {
                if d >= 2 {
                    Some(DeviceId { object_path: String::from_str(object_path) })
                } else {
                    None
                }
            },
            None => None,
        }
    }

    /// Makes the identifier of the device that `adapter` holds under the node name `name`,
    /// or `None` where `name` is no node name of a device.
    pub fn on_adapter(adapter: &AdapterId, name: &str) -> (id: Option<DeviceId>)
        ensures
            id is Some <==> Self::is_node_name(name@),
            id matches Some(c) ==> c@ == child_of(adapter@, name@) && c.wf(),
    {
        if segment_text(name) && starts_with(name, DEVICE_PREFIX) {
            let parent = adapter.as_str();
            proof {
                lemma_child(parent@, name@);
                lemma_depth_positive(parent@);
            }
            Some(DeviceId { object_path: child_text(parent, name) })
        } else {
            None
        }
    }

    /// The identifier of the adapter that holds this device.
    pub fn adapter(&self) -> (adapter: AdapterId)
        ensures
            adapter@ == parent_of(self@),
            adapter.wf(),
    {
        proof {
            use_type_invariant(self);
            lemma_parent(self@);
        }
        AdapterId::from_valid(parent_text(self.object_path.as_str()))
    }

    /// Wraps an object path that is already known to suit this kind of identifier.
    pub(crate) fn from_valid(object_path: String) -> (id: DeviceId)
        requires
            is_object_path(object_path@) && depth(object_path@) >= 2,
        ensures
            id@ == object_path@,
            id.wf(),
    {
        DeviceId { object_path }
    }

    /// The object path of the device.
    pub fn as_str(&self) -> (path: &str)
        ensures
            path@ == self@,
            self.wf(),
    {
        proof {
            use_type_invariant(self);
        }
        self.object_path.as_str()
    }

    /// The short name of the device, such as `hci0/dev_11_22_33_44_55_66`: its path without the
    /// daemon's root. `None` where the path lies under another root.
    pub fn display(&self) -> (name: Option<String>)
        ensures
            name is Some <==> stripped(self@, ROOT_PREFIX@) is Some,
            name matches Some(n) ==> Some(n@) == stripped(self@, ROOT_PREFIX@),
    {
        strip_root(self.object_path.as_str(), ROOT_PREFIX)
    }
}

/// Taking the adapter of a device made on an adapter gives that adapter back.
pub proof fn lemma_adapter_of_device(adapter: AdapterId, name: Seq<char>)
    requires
        adapter.wf(),
        DeviceId::is_node_name(name),
    ensures
        parent_of(child_of(adapter@, name)) == adapter@,
{
    lemma_child(adapter@, name);
}

/// Information about a Bluetooth device which was discovered.
#[derive(Clone, Debug, PartialEq, Eq)]
pub struct DeviceInfo {
    /// An opaque identifier for the device, including a reference to which adapter it was
    /// discovered on.
    pub id: DeviceId,
    /// The MAC address of the device.
    pub mac_address: MacAddress,
    /// The human-readable name of the device, if available.
    pub name: Option<String>,
    /// The appearance of the device, as defined by GAP.
    pub appearance: Option<u16>,
    /// The GATT service UUIDs (if any) from the device's advertisement or service
    /// discovery.
    pub services: Vec<Uuid>,
    /// Whether the device is currently paired with the adapter.
    pub paired: bool,
    /// Whether the device is currently connected to the adapter.
    pub connected: bool,
    /// The Received Signal Strength Indicator of the device advertisement or inquiry.
    pub rssi: Option<i16>,
    /// Manufacturer-specific advertisement data, if any, by company number.
    pub manufacturer_data: Vec<(u16, Vec<u8>)>,
    /// The GATT service data from the device's advertisement, if any, by service UUID.
    pub service_data: Vec<(Uuid, Vec<u8>)>,
    /// Whether service discovery has finished for the device.
    pub services_resolved: bool,
}

/// What a device record holds.
pub struct DeviceInfoView {
    pub id: Seq<char>,
    pub mac_address: Seq<char>,
    pub name: Option<Seq<char>>,
    pub appearance: Option<u16>,
    pub services: Seq<Uuid>,
    pub paired: bool,
    pub connected: bool,
    pub rssi: Option<i16>,
    pub manufacturer_data: Seq<(u16, Seq<u8>)>,
    pub service_data: Seq<(Uuid, Seq<u8>)>,
    pub services_resolved: bool,
}

/// What a list of payloads by company number holds.
pub open spec fn manufacturer_payloads(data: Seq<(u16, Vec<u8>)>) -> Seq<(u16, Seq<u8>)> {
    data.map_values(|e: (u16, Vec<u8>)| (e.0, e.1@))
}

/// What a list of payloads by service holds.
pub open spec fn service_payloads(data: Seq<(Uuid, Vec<u8>)>) -> Seq<(Uuid, Seq<u8>)> {
    data.map_values(|e: (Uuid, Vec<u8>)| (e.0, e.1@))
}

impl View for DeviceInfo {
    type V = DeviceInfoView;

    open spec fn view(&self) -> DeviceInfoView {
        DeviceInfoView {
            id: self.id@,
            mac_address: self.mac_address@,
            name: match self.name {
                Some(name) => Some(name@),
                None => None,
            },
            appearance: self.appearance,
            services: self.services@,
            paired: self.paired,
            connected: self.connected,
            rssi: self.rssi,
            manufacturer_data: manufacturer_payloads(self.manufacturer_data@),
            service_data: service_payloads(self.service_data@),
            services_resolved: self.services_resolved,
        }
    }
}

/// The identifiers that the texts of `list` parse to, in order; a text that does not
/// parse is left out.
pub open spec fn kept_uuids(list: Seq<Seq<char>>) -> Seq<Uuid>
    decreases list.len(),
{
    if list.len() == 0 {
        seq![]
    } else {
        let rest = kept_uuids(list.drop_last());
        match Uuid::parsed(list.last()) {
            Some(uuid) => rest.push(uuid),
            None => rest,
        }
    }
}

/// What a manufacturer data entry contributes to a record: itself where its value is a
/// byte sequence, nothing otherwise.
pub open spec fn manufacturer_kept(entry: (u16, Option<Seq<u8>>)) -> Option<(u16, Seq<u8>)> {
    match entry.1 {
        Some(bytes) => Some((entry.0, bytes)),
        None => None,
    }
}

/// The well-formed entries of `data`, in order.
pub open spec fn manufacturer_entries(data: Seq<(u16, Option<Seq<u8>>)>) -> Seq<(u16, Seq<u8>)>
    decreases data.len(),
{
    if data.len() == 0 {
        seq![]
    } else {
        let rest = manufacturer_entries(data.drop_last());
        match manufacturer_kept(data.last()) {
            Some(entry) => rest.push(entry),
            None => rest,
        }
    }
}

/// What a service data entry contributes to a record, given what its key parsed to: the
/// service and the bytes where the key is a UUID and the value a byte sequence, nothing
/// otherwise.
pub open spec fn service_kept(key: Option<Uuid>, value: Option<Seq<u8>>) -> Option<
    (Uuid, Seq<u8>),
> {
    match (key, value) {
        (Some(uuid), Some(bytes)) => Some((uuid, bytes)),
        _ => None,
    }
}

/// The well-formed entries of `data`, in order, each under the UUID that its key parses
/// to.
pub open spec fn service_entries(data: Seq<(Seq<char>, Option<Seq<u8>>)>) -> Seq<
    (Uuid, Seq<u8>),
>
    decreases data.len(),
{
    if data.len() == 0 {
        seq![]
    } else {
        let rest = service_entries(data.drop_last());
        match service_kept(Uuid::parsed(data.last().0), data.last().1) {
            Some(entry) => rest.push(entry),
            None => rest,
        }
    }
}

/// Every well-formed entry of the input is kept, and nothing else is.
pub proof fn lemma_manufacturer_entries(data: Seq<(u16, Option<Seq<u8>>)>)
    ensures
        manufacturer_entries(data).len() <= data.len(),
        forall|key: u16, bytes: Seq<u8>|
            manufacturer_entries(data).contains((key, bytes)) <==> data.contains(
                (key, Some(bytes)),
            ),
    decreases data.len(),
{
    if data.len() > 0 {
        let front = data.drop_last();
        let last = data.last();
        lemma_manufacturer_entries(front);
        let rest = manufacturer_entries(front);
        let kept = manufacturer_entries(data);
        assert(data =~= front.push(last));
        assert forall|key: u16, bytes: Seq<u8>|
            kept.contains((key, bytes)) <==> data.contains((key, Some(bytes))) by {
            let entry = (key, bytes);
            let source = (key, Some(bytes));
            assert(rest.contains(entry) <==> front.contains(source));
            assert(manufacturer_kept(last) == Some(entry) <==> last == source);
            if kept.contains(entry) {
                let i = choose|i: int| 0 <= i < kept.len() && kept[i] == entry;
                if i < rest.len() {
                    assert(rest[i] == entry);
                    let j = choose|j: int| 0 <= j < front.len() && front[j] == source;
                    assert(data[j] == source);
                } else {
                    assert(data[data.len() - 1] == source);
                }
                assert(data.contains(source));
            }
            if data.contains(source) {
                let j = choose|j: int| 0 <= j < data.len() && data[j] == source;
                if j < front.len() {
                    assert(front[j] == source);
                    let i = choose|i: int| 0 <= i < rest.len() && rest[i] == entry;
                    assert(kept[i] == entry);
                } else {
                    assert(kept[kept.len() - 1] == entry);
                }
                assert(kept.contains(entry));
            }
        }
    }
}

/// Parses each text of `uuids` and keeps the identifiers of those that parse.
pub fn convert_services(uuids: &Vec<String>) -> (services: Vec<Uuid>)
    ensures
        services@ == kept_uuids(texts(uuids@)),
{
    let mut services: Vec<Uuid> = Vec::new();
    let mut i: usize = 0;
    while i < uuids.len()
        invariant
            i <= uuids.len(),
            services@ == kept_uuids(texts(uuids@).subrange(0, i as int)),
        decreases uuids.len() - i,
    {
        proof {
            assert(texts(uuids@).subrange(0, i + 1).drop_last() =~= texts(uuids@).subrange(
                0,
                i as int,
            ));
        }
        match Uuid::parse_str(uuids[i].as_str()) {
            Ok(uuid) => {
                services.push(uuid);
            },
            Err(_) => {},
        }
        i += 1;
    }
    assert(texts(uuids@).subrange(0, i as int) =~= texts(uuids@));
    services
}

/// Copies a byte sequence.
pub fn copy_bytes(bytes: &Vec<u8>) -> (copy: Vec<u8>)
    ensures
        copy@ == bytes@,
{
    let mut copy: Vec<u8> = Vec::new();
    let mut i: usize = 0;
    while i < bytes.len()
        invariant
            i <= bytes.len(),
            copy@ == bytes@.subrange(0, i as int),
        decreases bytes.len() - i,
    {
        copy.push(bytes[i]);
        assert(bytes@.subrange(0, i + 1) =~= bytes@.subrange(0, i as int).push(bytes@[i as int]));
        i += 1;
    }
    assert(bytes@.subrange(0, i as int) =~= bytes@);
    copy
}

/// Decides what one manufacturer data entry contributes to a record.
pub fn manufacturer_entry(key: u16, payload: &Payload) -> (kept: Option<(u16, Vec<u8>)>)
    ensures
        match kept {
            Some(entry) => manufacturer_kept((key, payload@)) == Some((entry.0, entry.1@)),
            None => manufacturer_kept((key, payload@)) is None,
        },
{
    match payload {
        Payload::Bytes(bytes) => Some((key, copy_bytes(bytes))),
        Payload::Other => None,
    }
}

/// Decides what one service data entry contributes to a record, given what its key
/// parsed to.
pub fn service_entry(key: Option<Uuid>, payload: &Payload) -> (kept: Option<(Uuid, Vec<u8>)>)
    ensures
        match kept {
            Some(entry) => service_kept(key, payload@) == Some((entry.0, entry.1@)),
            None => service_kept(key, payload@) is None,
        },
{
    match (key, payload) {
        (Some(uuid), Payload::Bytes(bytes)) => Some((uuid, copy_bytes(bytes))),
        _ => None,
    }
}

/// Keeps the manufacturer data entries whose value is a byte sequence.
pub fn convert_manufacturer_data(data: &Vec<(u16, Payload)>) -> (kept: Vec<(u16, Vec<u8>)>)
    ensures
        manufacturer_payloads(kept@) == manufacturer_entries(manufacturer_view(data@)),
{
    let mut kept: Vec<(u16, Vec<u8>)> = Vec::new();
    let mut i: usize = 0;
    assert(manufacturer_payloads(kept@) =~= seq![]);
    while i < data.len()
        invariant
            i <= data.len(),
            manufacturer_payloads(kept@) == manufacturer_entries(
                manufacturer_view(data@).subrange(0, i as int),
            ),
        decreases data.len() - i,
    {
        proof {
            assert(manufacturer_view(data@).subrange(0, i + 1).drop_last() =~= manufacturer_view(
                data@,
            ).subrange(0, i as int));
        }
        let ghost before = kept@;
        match manufacturer_entry(data[i].0, &data[i].1) {
            Some(entry) => {
                kept.push(entry);
                assert(manufacturer_payloads(kept@) =~= manufacturer_payloads(before).push(
                    (entry.0, entry.1@),
                ));
            },
            None => {},
        }
        i += 1;
    }
    assert(manufacturer_view(data@).subrange(0, i as int) =~= manufacturer_view(data@));
    kept
}

/// Keeps the service data entries whose key is the text of a UUID and whose value is a
/// byte sequence.
pub fn convert_service_data(data: &Vec<(String, Payload)>) -> (kept: Vec<(Uuid, Vec<u8>)>)
    ensures
        service_payloads(kept@) == service_entries(service_view(data@)),
{
    let mut kept: Vec<(Uuid, Vec<u8>)> = Vec::new();
    let mut i: usize = 0;
    assert(service_payloads(kept@) =~= seq![]);
    while i < data.len()
        invariant
            i <= data.len(),
            service_payloads(kept@) == service_entries(
                service_view(data@).subrange(0, i as int),
            ),
        decreases data.len() - i,
    {
        proof {
            assert(service_view(data@).subrange(0, i + 1).drop_last() =~= service_view(
                data@,
            ).subrange(0, i as int));
        }
        let ghost before = kept@;
        let key = match Uuid::parse_str(data[i].0.as_str()) {
            Ok(uuid) => Some(uuid),
            Err(_) => None,
        };
        match service_entry(key, &data[i].1) {
            Some(entry) => {
                kept.push(entry);
                assert(service_payloads(kept@) =~= service_payloads(before).push(
                    (entry.0, entry.1@),
                ));
            },
            None => {},
        }
        i += 1;
    }
    assert(service_view(data@).subrange(0, i as int) =~= service_view(data@));
    kept
}

/// The name of the first required property that `bag` lacks, if it lacks one. A
/// property of the wrong shape counts as lacking.
pub open spec fn missing_property(bag: BagView) -> Option<Seq<char>> {
    if text_at(bag, "Address"@) is None {
        Some("Address"@)
    } else if bool_at(bag, "Paired"@) is None {
        Some("Paired"@)
    } else if bool_at(bag, "Connected"@) is None {
        Some("Connected"@)
    } else if bool_at(bag, "ServicesResolved"@) is None {
        Some("ServicesResolved"@)
    } else {
        None
    }
}

/// The record that a bag with all required properties decodes to.
pub open spec fn decoded(id: Seq<char>, bag: BagView) -> DeviceInfoView {
    DeviceInfoView {
        id,
        mac_address: text_at(bag, "Address"@).unwrap(),
        name: text_at(bag, "Name"@),
        appearance: u16_at(bag, "Appearance"@),
        services: match text_list_at(bag, "UUIDs"@) {
            Some(list) => kept_uuids(list),
            None => seq![],
        },
        paired: bool_at(bag, "Paired"@).unwrap(),
        connected: bool_at(bag, "Connected"@).unwrap(),
        rssi: i16_at(bag, "RSSI"@),
        manufacturer_data: match manufacturer_data_at(bag, "ManufacturerData"@) {
            Some(data) => manufacturer_entries(data),
            None => seq![],
        },
        service_data: match service_data_at(bag, "ServiceData"@) {
            Some(data) => service_entries(data),
            None => seq![],
        },
        services_resolved: bool_at(bag, "ServicesResolved"@).unwrap(),
    }
}

impl DeviceInfo {
    /// Decodes the record of the device `id` from its property bag. The address and the
    /// paired, connected and services-resolved flags are required; everything else is
    /// left empty where the bag lacks it.
    pub fn from_properties(id: DeviceId, properties: &Vec<Property>) -> (info: Result<
        DeviceInfo,
        BluetoothError,
    >)
        ensures
            match missing_property(bag_view(properties@)) {
                Some(name) => info matches Err(BluetoothError::RequiredPropertyMissing(n)) && n@
                    == name,
                None => info matches Ok(record) && record@ == decoded(
                    id@,
                    bag_view(properties@),
                ),
            },
    {
        let mac_address = match get_text(properties, "Address") {
            Some(address) => MacAddress::from_reported(address.as_str()),
            None => {
                return Err(BluetoothError::RequiredPropertyMissing("Address".to_owned()));
            },
        };
        let services = match get_text_list(properties, "UUIDs") {
            Some(uuids) => convert_services(uuids),
            None => Vec::new(),
        };
        let manufacturer_data = match get_manufacturer_data(properties, "ManufacturerData") {
            Some(data) => convert_manufacturer_data(data),
            None => Vec::new(),
        };
        let service_data = match get_service_data(properties, "ServiceData") {
            Some(data) => convert_service_data(data),
            None => Vec::new(),
        };
        let name = match get_text(properties, "Name") {
            Some(name) => Some(name.clone()),
            None => None,
        };
        let paired = match get_bool(properties, "Paired") {
            Some(paired) => paired,
            None => {
                return Err(BluetoothError::RequiredPropertyMissing("Paired".to_owned()));
            },
        };
        let connected = match get_bool(properties, "Connected") {
            Some(connected) => connected,
            None => {
                return Err(BluetoothError::RequiredPropertyMissing("Connected".to_owned()));
            },
        };
        let services_resolved = match get_bool(properties, "ServicesResolved") {
            Some(services_resolved) => services_resolved,
            None => {
                return Err(
                    BluetoothError::RequiredPropertyMissing("ServicesResolved".to_owned()),
                );
            },
        };
        let record = DeviceInfo {
            id,
            mac_address,
            name,
            appearance: get_u16(properties, "Appearance"),
            services,
            paired,
            connected,
            rssi: get_i16(properties, "RSSI"),
            manufacturer_data,
            service_data,
            services_resolved,
        };
        proof {
            assert(manufacturer_payloads(Seq::<(u16, Vec<u8>)>::empty()) =~= seq![]);
            assert(service_payloads(Seq::<(Uuid, Vec<u8>)>::empty()) =~= seq![]);
        }
        Ok(record)
    }
}

} // verus!
