use bluez_async::events::{
    adapter_events, characteristic_events, device_events, interfaces_added_to_events,
    interfaces_removed_to_events, match_rules, message_to_events, messages_to_events,
    new_signal_rule, properties_changed_to_events, push_event, MatchRule, Message, Scope,
};
use bluez_async::property::{Payload, Property, PropertyValue};
use bluez_async::walker::Interface;
use bluez_async::{
    AdapterEvent, AdapterId, BluetoothEvent, CharacteristicEvent, CharacteristicId, DeviceEvent,
    DeviceId, Uuid,
};

const DEVICE: &str = "/org/bluez/hci0/dev_11_22_33_44_55_66";
const OTHER_DEVICE: &str = "/org/bluez/hci0/dev_AA_BB_CC_DD_EE_FF";
const CHARACTERISTIC: &str = "/org/bluez/hci0/dev_11_22_33_44_55_66/service0012/char0034";

fn changed(path: &str, interface: &str, properties: Vec<(&str, PropertyValue)>) -> Message {
    Message::PropertiesChanged {
        path: path.to_string(),
        interface: interface.to_string(),
        changed: properties
            .into_iter()
            .map(|(name, value)| Property { name: name.to_string(), value })
            .collect(),
    }
}

fn device_event(path: &str, event: DeviceEvent) -> BluetoothEvent {
    BluetoothEvent::Device { id: DeviceId::new(path).unwrap(), event }
}

fn exposing(names: &[&str]) -> Vec<Interface> {
    names.iter().map(|n| Interface { name: n.to_string(), properties: vec![] }).collect()
}

#[test]
fn adapter_powered() {
    let message =
        changed("/org/bluez/hci0", "org.bluez.Adapter1", vec![("Powered", PropertyValue::Bool(true))]);
    assert_eq!(
        message_to_events(&Scope::All, &message),
        vec![BluetoothEvent::Adapter {
            id: AdapterId::new("/org/bluez/hci0").unwrap(),
            event: AdapterEvent::Powered { powered: true },
        }]
    );
}

#[test]
fn device_rssi() {
    let message = changed(DEVICE, "org.bluez.Device1", vec![("RSSI", PropertyValue::I16(42))]);
    assert_eq!(
        message_to_events(&Scope::All, &message),
        vec![device_event(DEVICE, DeviceEvent::Rssi { rssi: 42 })]
    );
}

#[test]
fn device_manufacturer_data() {
    let message = changed(
        DEVICE,
        "org.bluez.Device1",
        vec![(
            "ManufacturerData",
            PropertyValue::ManufacturerData(vec![
                (1, Payload::Bytes(vec![1, 2, 3])),
                (2, Payload::Other),
            ]),
        )],
    );
    assert_eq!(
        message_to_events(&Scope::All, &message),
        vec![device_event(
            DEVICE,
            DeviceEvent::ManufacturerData { manufacturer_data: vec![(1, vec![1, 2, 3])] }
        )]
    );
}

#[test]
fn characteristic_value() {
    let message = changed(
        CHARACTERISTIC,
        "org.bluez.GattCharacteristic1",
        vec![("Value", PropertyValue::Bytes(vec![1, 2, 3]))],
    );
    assert_eq!(
        message_to_events(&Scope::All, &message),
        vec![BluetoothEvent::Characteristic {
            id: CharacteristicId::new(CHARACTERISTIC).unwrap(),
            event: CharacteristicEvent::Value { value: vec![1, 2, 3] },
        }]
    );
}

#[test]
fn device_changes_come_in_a_fixed_order() {
    let uuid = "0000181a-0000-1000-8000-00805f9b34fb";
    let message = changed(
        DEVICE,
        "org.bluez.Device1",
        vec![
            ("ServicesResolved", PropertyValue::Bool(true)),
            ("UUIDs", PropertyValue::TextList(vec![uuid.to_string(), "?".to_string()])),
            (
                "ServiceData",
                PropertyValue::ServiceData(vec![(uuid.to_string(), Payload::Bytes(vec![5]))]),
            ),
            ("RSSI", PropertyValue::I16(-60)),
            ("Alias", PropertyValue::Text("kitchen".to_string())),
            ("Connected", PropertyValue::Bool(false)),
        ],
    );
    let id = Uuid::from_u128(0x0000181a_0000_1000_8000_00805f9b34fb);
    assert_eq!(
        message_to_events(&Scope::All, &message),
        vec![
            device_event(DEVICE, DeviceEvent::Connected { connected: false }),
            device_event(DEVICE, DeviceEvent::Rssi { rssi: -60 }),
            device_event(DEVICE, DeviceEvent::ServiceData { service_data: vec![(id, vec![5])] }),
            device_event(DEVICE, DeviceEvent::Services { services: vec![id] }),
            device_event(DEVICE, DeviceEvent::ServicesResolved),
        ]
    );
}

#[test]
fn services_not_resolved_is_no_event() {
    let message =
        changed(DEVICE, "org.bluez.Device1", vec![("ServicesResolved", PropertyValue::Bool(false))]);
    assert_eq!(message_to_events(&Scope::All, &message), vec![]);
}

#[test]
fn untracked_properties_and_interfaces_give_nothing() {
    let message = changed(DEVICE, "org.bluez.Device1", vec![("Alias", PropertyValue::Other)]);
    assert_eq!(message_to_events(&Scope::All, &message), vec![]);
    let message = changed(DEVICE, "org.bluez.Battery1", vec![("RSSI", PropertyValue::I16(1))]);
    assert_eq!(message_to_events(&Scope::All, &message), vec![]);
    assert_eq!(message_to_events(&Scope::All, &Message::Other), vec![]);
}

#[test]
fn changes_at_unfit_paths_give_nothing() {
    let message = changed("/hci0", "org.bluez.Device1", vec![("RSSI", PropertyValue::I16(1))]);
    assert_eq!(message_to_events(&Scope::All, &message), vec![]);
    let message = changed(
        "/org/bluez/hci0",
        "org.bluez.GattCharacteristic1",
        vec![("Value", PropertyValue::Bytes(vec![1]))],
    );
    assert_eq!(message_to_events(&Scope::All, &message), vec![]);
}

#[test]
fn device_discovered() {
    let message = Message::InterfacesAdded {
        path: DEVICE.to_string(),
        interfaces: exposing(&["org.freedesktop.DBus.Properties", "org.bluez.Device1"]),
    };
    assert_eq!(
        message_to_events(&Scope::All, &message),
        vec![device_event(DEVICE, DeviceEvent::Discovered)]
    );
}

#[test]
fn adapter_discovered_and_removed() {
    let id = AdapterId::new("/org/bluez/hci1").unwrap();
    let message = Message::InterfacesAdded {
        path: "/org/bluez/hci1".to_string(),
        interfaces: exposing(&["org.bluez.Adapter1"]),
    };
    assert_eq!(
        message_to_events(&Scope::All, &message),
        vec![BluetoothEvent::Adapter { id: id.clone(), event: AdapterEvent::Discovered }]
    );
    let message = Message::InterfacesRemoved {
        path: "/org/bluez/hci1".to_string(),
        interfaces: vec!["org.bluez.Adapter1".to_string()],
    };
    assert_eq!(
        message_to_events(&Scope::All, &message),
        vec![BluetoothEvent::Adapter { id, event: AdapterEvent::Removed }]
    );
}

#[test]
fn device_removed() {
    let message = Message::InterfacesRemoved {
        path: DEVICE.to_string(),
        interfaces: vec!["org.bluez.Battery1".to_string(), "org.bluez.Device1".to_string()],
    };
    assert_eq!(
        message_to_events(&Scope::All, &message),
        vec![device_event(DEVICE, DeviceEvent::Removed)]
    );
    assert_eq!(interfaces_removed_to_events(DEVICE, &vec!["org.bluez.Battery1".to_string()]), vec![]);
}

#[test]
fn other_objects_that_come_and_go_give_nothing() {
    assert_eq!(
        interfaces_added_to_events(CHARACTERISTIC, &exposing(&["org.bluez.GattCharacteristic1"])),
        vec![]
    );
    assert_eq!(interfaces_added_to_events("/", &exposing(&["org.bluez.Device1"])), vec![]);
}

#[test]
fn characteristic_scope_hears_nothing_of_another_device() {
    let scope = Scope::Characteristic(CharacteristicId::new(CHARACTERISTIC).unwrap());
    let message =
        changed(OTHER_DEVICE, "org.bluez.Device1", vec![("RSSI", PropertyValue::I16(-50))]);
    assert_eq!(message_to_events(&scope, &message), vec![]);
    let message =
        changed(DEVICE, "org.bluez.Device1", vec![("Connected", PropertyValue::Bool(true))]);
    assert_eq!(message_to_events(&scope, &message), vec![]);
    let message = changed(
        CHARACTERISTIC,
        "org.bluez.GattCharacteristic1",
        vec![("Value", PropertyValue::Bytes(vec![7]))],
    );
    assert_eq!(message_to_events(&scope, &message).len(), 1);
}

#[test]
fn device_scope_covers_the_device_and_what_is_below() {
    let scope = Scope::Device(DeviceId::new(DEVICE).unwrap());
    assert!(scope.covers(DEVICE));
    assert!(scope.covers(CHARACTERISTIC));
    assert!(!scope.covers(OTHER_DEVICE));
    assert!(!scope.covers("/org/bluez/hci0/dev_11_22_33_44_55_667"));
    assert!(!scope.covers("/org/bluez/hci0"));
    let message = changed(
        CHARACTERISTIC,
        "org.bluez.GattCharacteristic1",
        vec![("Value", PropertyValue::Bytes(vec![7]))],
    );
    assert_eq!(message_to_events(&scope, &message).len(), 1);
    let message =
        changed(OTHER_DEVICE, "org.bluez.Device1", vec![("RSSI", PropertyValue::I16(-50))]);
    assert_eq!(message_to_events(&scope, &message), vec![]);
    let message = Message::InterfacesAdded {
        path: DEVICE.to_string(),
        interfaces: exposing(&["org.bluez.Device1"]),
    };
    assert_eq!(message_to_events(&scope, &message), vec![]);
}

#[test]
fn events_keep_the_order_of_their_messages() {
    let messages = vec![
        changed(DEVICE, "org.bluez.Device1", vec![("RSSI", PropertyValue::I16(1))]),
        Message::Other,
        changed(
            OTHER_DEVICE,
            "org.bluez.Device1",
            vec![("RSSI", PropertyValue::I16(2)), ("Connected", PropertyValue::Bool(true))],
        ),
        changed(DEVICE, "org.bluez.Device1", vec![("RSSI", PropertyValue::I16(3))]),
    ];
    assert_eq!(
        messages_to_events(&Scope::All, &messages),
        vec![
            device_event(DEVICE, DeviceEvent::Rssi { rssi: 1 }),
            device_event(OTHER_DEVICE, DeviceEvent::Connected { connected: true }),
            device_event(OTHER_DEVICE, DeviceEvent::Rssi { rssi: 2 }),
            device_event(DEVICE, DeviceEvent::Rssi { rssi: 3 }),
        ]
    );
    assert_eq!(
        messages_to_events(&Scope::Device(DeviceId::new(DEVICE).unwrap()), &messages),
        vec![
            device_event(DEVICE, DeviceEvent::Rssi { rssi: 1 }),
            device_event(DEVICE, DeviceEvent::Rssi { rssi: 3 }),
        ]
    );
}

#[test]
fn rules_for_everything() {
    let rule = |interface: &str, member: &str| MatchRule {
        interface: interface.to_string(),
        member: member.to_string(),
        sender: "org.bluez".to_string(),
        path: None,
        path_is_namespace: false,
    };
    assert_eq!(
        match_rules(&Scope::All),
        vec![
            rule("org.freedesktop.DBus.ObjectManager", "InterfacesAdded"),
            rule("org.freedesktop.DBus.ObjectManager", "InterfacesRemoved"),
            rule("org.freedesktop.DBus.Properties", "PropertiesChanged"),
        ]
    );
}

#[test]
fn rules_for_one_object() {
    let expected = |path: &str| {
        vec![MatchRule {
            interface: "org.freedesktop.DBus.Properties".to_string(),
            member: "PropertiesChanged".to_string(),
            sender: "org.bluez".to_string(),
            path: Some(path.to_string()),
            path_is_namespace: true,
        }]
    };
    assert_eq!(match_rules(&Scope::Device(DeviceId::new(DEVICE).unwrap())), expected(DEVICE));
    assert_eq!(
        match_rules(&Scope::Characteristic(CharacteristicId::new(CHARACTERISTIC).unwrap())),
        expected(CHARACTERISTIC)
    );
    assert_eq!(new_signal_rule("i", "m", Some("/p")).path, Some("/p".to_string()));
}

#[test]
fn parts_of_the_translation() {
    let adapter = AdapterId::new("/org/bluez/hci0").unwrap();
    assert_eq!(adapter_events(&adapter, &vec![]), vec![]);
    let device = DeviceId::new(DEVICE).unwrap();
    assert_eq!(device_events(&device, &vec![]), vec![]);
    let characteristic = CharacteristicId::new(CHARACTERISTIC).unwrap();
    assert_eq!(characteristic_events(&characteristic, &vec![]), vec![]);
    assert_eq!(properties_changed_to_events(DEVICE, "org.bluez.Device1", &vec![]), vec![]);
    let mut events = vec![];
    push_event(&mut events, None);
    assert_eq!(events, vec![]);
    push_event(&mut events, Some(device_event(DEVICE, DeviceEvent::Discovered)));
    assert_eq!(events, vec![device_event(DEVICE, DeviceEvent::Discovered)]);
}
