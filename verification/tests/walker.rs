use bluez_async::property::{Property, PropertyValue};
use bluez_async::walker::{
    adapter_ids, adapters_from_tree, characteristic_ids, descriptor_ids, devices_from_tree,
    interface_properties, service_ids, Interface, ManagedObject,
};
use bluez_async::{AdapterId, BluetoothError, CharacteristicId, DeviceId, ServiceId};

fn names(list: &[&str]) -> Vec<String> {
    list.iter().map(|n| n.to_string()).collect()
}

fn device_properties() -> Vec<Property> {
    vec![
        Property {
            name: "Address".to_string(),
            value: PropertyValue::Text("11:22:33:44:55:66".to_string()),
        },
        Property { name: "Paired".to_string(), value: PropertyValue::Bool(false) },
        Property { name: "Connected".to_string(), value: PropertyValue::Bool(false) },
        Property { name: "ServicesResolved".to_string(), value: PropertyValue::Bool(false) },
    ]
}

fn object(path: &str, interfaces: &[(&str, Vec<Property>)]) -> ManagedObject {
    ManagedObject {
        path: path.to_string(),
        interfaces: interfaces
            .iter()
            .map(|(name, properties)| Interface {
                name: name.to_string(),
                properties: properties.clone(),
            })
            .collect(),
    }
}

#[test]
fn empty_tree_has_no_adapters() {
    assert_eq!(adapters_from_tree(&vec![]), Err(BluetoothError::NoBluetoothAdapters));
    assert_eq!(devices_from_tree(&vec![]), vec![]);
}

#[test]
fn tree_with_a_device_and_no_adapter() {
    let tree = vec![object(
        "/org/bluez/hci0/dev_11_22_33_44_55_66",
        &[("org.bluez.Device1", device_properties())],
    )];
    assert_eq!(adapters_from_tree(&tree), Err(BluetoothError::NoBluetoothAdapters));
    let devices = devices_from_tree(&tree);
    assert_eq!(devices.len(), 1);
    assert_eq!(devices[0].id, DeviceId::new("/org/bluez/hci0/dev_11_22_33_44_55_66").unwrap());
    assert_eq!(devices[0].mac_address.as_str(), "11:22:33:44:55:66");
}

#[test]
fn adapters_and_devices_are_told_apart_by_interface() {
    let tree = vec![
        object("/org/bluez", &[("org.bluez.AgentManager1", vec![])]),
        object(
            "/org/bluez/hci0",
            &[("org.freedesktop.DBus.Properties", vec![]), ("org.bluez.Adapter1", vec![])],
        ),
        object(
            "/org/bluez/hci0/dev_11_22_33_44_55_66",
            &[("org.bluez.Device1", device_properties())],
        ),
        object("/org/bluez/hci1", &[("org.bluez.Adapter1", vec![])]),
        object("/org/bluez/hci0/dev_AA", &[("org.bluez.Device1", vec![])]),
    ];
    assert_eq!(
        adapters_from_tree(&tree),
        Ok(vec![
            AdapterId::new("/org/bluez/hci0").unwrap(),
            AdapterId::new("/org/bluez/hci1").unwrap(),
        ])
    );
    let devices = devices_from_tree(&tree);
    assert_eq!(devices.len(), 1);
    assert_eq!(devices[0].id.as_str(), "/org/bluez/hci0/dev_11_22_33_44_55_66");
}

#[test]
fn objects_at_unfit_paths_are_passed_over() {
    let tree = vec![
        object("/hci0", &[("org.bluez.Device1", device_properties())]),
        object("no/path", &[("org.bluez.Adapter1", vec![])]),
    ];
    assert_eq!(adapters_from_tree(&tree), Err(BluetoothError::NoBluetoothAdapters));
    assert_eq!(devices_from_tree(&tree), vec![]);
}

#[test]
fn first_interface_of_a_name_is_found() {
    let interfaces = vec![
        Interface { name: "a".to_string(), properties: vec![] },
        Interface { name: "b".to_string(), properties: device_properties() },
        Interface { name: "b".to_string(), properties: vec![] },
    ];
    assert_eq!(interface_properties(&interfaces, "b"), Some(&device_properties()));
    assert_eq!(interface_properties(&interfaces, "c"), None);
}

#[test]
fn adapters_are_the_hci_nodes_of_the_root() {
    let ids = adapter_ids(&names(&["hci0", "test", "hci12", "hci-1", ""]));
    assert_eq!(
        ids,
        vec![
            AdapterId::new("/org/bluez/hci0").unwrap(),
            AdapterId::new("/org/bluez/hci12").unwrap(),
        ]
    );
}

#[test]
fn children_are_picked_by_prefix() {
    let device = DeviceId::new("/org/bluez/hci0/dev_11_22_33_44_55_66").unwrap();
    let services = service_ids(&device, &names(&["service0001", "char0002", "service00ff", "x"]));
    assert_eq!(
        services,
        vec![
            ServiceId::new("/org/bluez/hci0/dev_11_22_33_44_55_66/service0001").unwrap(),
            ServiceId::new("/org/bluez/hci0/dev_11_22_33_44_55_66/service00ff").unwrap(),
        ]
    );
    let characteristics =
        characteristic_ids(&services[0], &names(&["desc0001", "char0002", "service0003"]));
    assert_eq!(
        characteristics,
        vec![CharacteristicId::new(
            "/org/bluez/hci0/dev_11_22_33_44_55_66/service0001/char0002"
        )
        .unwrap()]
    );
    let descriptors = descriptor_ids(&characteristics[0], &names(&["desc0003", "desc", "des"]));
    assert_eq!(descriptors.len(), 2);
    assert_eq!(
        descriptors[0].as_str(),
        "/org/bluez/hci0/dev_11_22_33_44_55_66/service0001/char0002/desc0003"
    );
    assert_eq!(descriptors[1].characteristic(), characteristics[0]);
}

#[test]
fn no_children_is_no_error() {
    let device = DeviceId::new("/org/bluez/hci0/dev_11_22_33_44_55_66").unwrap();
    assert_eq!(service_ids(&device, &vec![]), vec![]);
    assert_eq!(service_ids(&device, &names(&["char0001"])), vec![]);
}

#[test]
fn names_that_are_no_segment_are_passed_over() {
    let device = DeviceId::new("/org/bluez/hci0/dev_11_22_33_44_55_66").unwrap();
    assert_eq!(service_ids(&device, &names(&["service/1", "service 1", "service-1"])), vec![]);
}
