use bluez_async::device::{
    convert_manufacturer_data, convert_service_data, convert_services, manufacturer_entry,
    service_entry,
};
use bluez_async::property::{Payload, Property, PropertyValue};
use bluez_async::{AdapterId, BluetoothError, DeviceId, DeviceInfo, MacAddress, Uuid};

fn property(name: &str, value: PropertyValue) -> Property {
    Property { name: name.to_string(), value }
}

fn required() -> Vec<Property> {
    vec![
        property("Address", PropertyValue::Text("00:11:22:33:44:55".to_string())),
        property("Paired", PropertyValue::Bool(false)),
        property("Connected", PropertyValue::Bool(true)),
        property("ServicesResolved", PropertyValue::Bool(false)),
    ]
}

fn without(bag: Vec<Property>, name: &str) -> Vec<Property> {
    bag.into_iter().filter(|p| p.name != name).collect()
}

fn device() -> DeviceId {
    DeviceId::new("/org/bluez/hci0/dev_00_11_22_33_44_55").unwrap()
}

#[test]
fn device_adapter() {
    let adapter_id = AdapterId::new("/org/bluez/hci0").unwrap();
    let device_id = DeviceId::new("/org/bluez/hci0/dev_11_22_33_44_55_66").unwrap();
    assert_eq!(device_id.adapter(), adapter_id);
}

#[test]
fn device_info_minimal() {
    let info = DeviceInfo::from_properties(device(), &required()).unwrap();
    assert_eq!(
        info,
        DeviceInfo {
            id: device(),
            mac_address: MacAddress::from_reported("00:11:22:33:44:55"),
            name: None,
            appearance: None,
            services: vec![],
            paired: false,
            connected: true,
            rssi: None,
            manufacturer_data: vec![],
            service_data: vec![],
            services_resolved: false,
        }
    );
}

#[test]
fn missing_connected_is_reported_by_name() {
    let bag = without(required(), "Connected");
    assert_eq!(
        DeviceInfo::from_properties(device(), &bag),
        Err(BluetoothError::RequiredPropertyMissing("Connected".to_string()))
    );
}

#[test]
fn each_required_property_is_reported_by_name() {
    for name in ["Address", "Paired", "Connected", "ServicesResolved"] {
        let bag = without(required(), name);
        assert_eq!(
            DeviceInfo::from_properties(device(), &bag),
            Err(BluetoothError::RequiredPropertyMissing(name.to_string()))
        );
    }
}

#[test]
fn first_missing_property_wins() {
    let bag = without(without(required(), "ServicesResolved"), "Paired");
    assert_eq!(
        DeviceInfo::from_properties(device(), &bag),
        Err(BluetoothError::RequiredPropertyMissing("Paired".to_string()))
    );
    assert_eq!(
        DeviceInfo::from_properties(device(), &Vec::new()),
        Err(BluetoothError::RequiredPropertyMissing("Address".to_string()))
    );
}

#[test]
fn required_property_of_wrong_shape_counts_as_missing() {
    let mut bag = without(required(), "Connected");
    bag.push(property("Connected", PropertyValue::Text("yes".to_string())));
    assert_eq!(
        DeviceInfo::from_properties(device(), &bag),
        Err(BluetoothError::RequiredPropertyMissing("Connected".to_string()))
    );
}

#[test]
fn name_is_optional() {
    let info = DeviceInfo::from_properties(device(), &required()).unwrap();
    assert_eq!(info.name, None);
    let mut bag = required();
    bag.push(property("Name", PropertyValue::Text("Thermometer".to_string())));
    let info = DeviceInfo::from_properties(device(), &bag).unwrap();
    assert_eq!(info.name, Some("Thermometer".to_string()));
}

#[test]
fn optional_properties_are_decoded() {
    let mut bag = required();
    bag.push(property("Appearance", PropertyValue::U16(768)));
    bag.push(property("RSSI", PropertyValue::I16(-70)));
    bag.push(property(
        "UUIDs",
        PropertyValue::TextList(vec![
            "0000181a-0000-1000-8000-00805f9b34fb".to_string(),
            "not a uuid".to_string(),
            "ebe0ccb0-7a0a-4b0c-8a1a-6ff2997da3a6".to_string(),
        ]),
    ));
    let info = DeviceInfo::from_properties(device(), &bag).unwrap();
    assert_eq!(info.appearance, Some(768));
    assert_eq!(info.rssi, Some(-70));
    assert_eq!(
        info.services,
        vec![
            Uuid::from_u128(0x0000181a_0000_1000_8000_00805f9b34fb),
            Uuid::from_u128(0xebe0ccb0_7a0a_4b0c_8a1a_6ff2997da3a6),
        ]
    );
}

#[test]
fn manufacturer_data() {
    let mut bag = required();
    bag.push(property(
        "ManufacturerData",
        PropertyValue::ManufacturerData(vec![
            (1, Payload::Bytes(vec![1, 2, 3])),
            (2, Payload::Other),
            (3, Payload::Bytes(vec![])),
        ]),
    ));
    let info = DeviceInfo::from_properties(device(), &bag).unwrap();
    assert_eq!(info.manufacturer_data, vec![(1, vec![1, 2, 3]), (3, vec![])]);
}

#[test]
fn service_data() {
    let uuid = Uuid::from_u128(0x11223344_0000_1000_8000_000000000000);
    let mut bag = required();
    bag.push(property(
        "ServiceData",
        PropertyValue::ServiceData(vec![
            ("11223344-0000-1000-8000-000000000000".to_string(), Payload::Bytes(vec![9, 8])),
            ("nonsense".to_string(), Payload::Bytes(vec![7])),
            ("11223344-0000-1000-8000-000000000000".to_string(), Payload::Other),
        ]),
    ));
    let info = DeviceInfo::from_properties(device(), &bag).unwrap();
    assert_eq!(info.service_data, vec![(uuid, vec![9, 8])]);
}

#[test]
fn entries_are_judged_one_by_one() {
    assert_eq!(manufacturer_entry(5, &Payload::Bytes(vec![4])), Some((5, vec![4])));
    assert_eq!(manufacturer_entry(5, &Payload::Other), None);
    let uuid = Uuid::from_u128(7);
    assert_eq!(service_entry(Some(uuid), &Payload::Bytes(vec![4])), Some((uuid, vec![4])));
    assert_eq!(service_entry(None, &Payload::Bytes(vec![4])), None);
    assert_eq!(service_entry(Some(uuid), &Payload::Other), None);
    assert_eq!(convert_manufacturer_data(&vec![]), vec![]);
    assert_eq!(convert_service_data(&vec![]), vec![]);
}

#[test]
fn get_services_none() {
    assert_eq!(convert_services(&vec![]), vec![]);
    assert_eq!(convert_services(&vec!["".to_string(), "xyz".to_string()]), vec![]);
}

#[test]
fn get_services_some() {
    let uuid = "11223344-0000-1000-8000-000000000000".to_string();
    assert_eq!(
        convert_services(&vec![uuid]),
        vec![Uuid::from_u128(0x11223344_0000_1000_8000_000000000000)]
    );
}

#[test]
fn wrongly_shaped_optional_property_is_left_out() {
    let mut bag = required();
    bag.push(property("RSSI", PropertyValue::U16(70)));
    bag.push(property("Name", PropertyValue::Bool(true)));
    bag.push(property("ManufacturerData", PropertyValue::Other));
    let info = DeviceInfo::from_properties(device(), &bag).unwrap();
    assert_eq!(info.rssi, None);
    assert_eq!(info.name, None);
    assert_eq!(info.manufacturer_data, vec![]);
}
