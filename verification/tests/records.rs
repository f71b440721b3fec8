use bluez_async::{
    BluetoothError, Capability, CharacteristicFlags, CharacteristicId, CharacteristicInfo,
    DescriptorId, DescriptorInfo, ServiceId, ServiceInfo, Uuid,
};

fn service(n: u8) -> ServiceId {
    ServiceId::new(&format!("/org/bluez/hci0/dev_11_22_33_44_55_66/service000{}", n)).unwrap()
}

fn characteristic(n: u8) -> CharacteristicId {
    CharacteristicId::in_service(&service(1), &format!("char000{}", n)).unwrap()
}

#[test]
fn service_record_from_what_is_reported() {
    let info =
        ServiceInfo::from_properties(service(1), "0000180a-0000-1000-8000-00805f9b34fb", true);
    assert_eq!(
        info,
        Ok(ServiceInfo {
            id: service(1),
            uuid: Uuid::from_u128(0x0000180a_0000_1000_8000_00805f9b34fb),
            primary: true,
        })
    );
}

#[test]
fn service_record_needs_a_uuid() {
    let info = ServiceInfo::from_properties(service(1), "0000180a", false);
    assert!(matches!(info, Err(BluetoothError::UUIDParseError(_))));
}

#[test]
fn characteristic_record_from_what_is_reported() {
    let flags = vec!["read".to_string(), "notify".to_string()];
    let info = CharacteristicInfo::from_properties(
        characteristic(2),
        "ebe0ccc1-7a0a-4b0c-8a1a-6ff2997da3a6",
        &flags,
    )
    .unwrap();
    assert_eq!(info.id, characteristic(2));
    assert_eq!(info.uuid, Uuid::from_u128(0xebe0ccc1_7a0a_4b0c_8a1a_6ff2997da3a6));
    assert_eq!(info.flags, CharacteristicFlags { bits: 0x12 });
    assert!(info.flags.contains(Capability::Notify));
}

#[test]
fn characteristic_record_fails_on_uuid_before_flags() {
    let flags = vec!["fly".to_string()];
    let info = CharacteristicInfo::from_properties(characteristic(2), "?", &flags);
    assert!(matches!(info, Err(BluetoothError::UUIDParseError(_))));
    let info = CharacteristicInfo::from_properties(
        characteristic(2),
        "ebe0ccc1-7a0a-4b0c-8a1a-6ff2997da3a6",
        &flags,
    );
    assert_eq!(info, Err(BluetoothError::FlagParseError("fly".to_string())));
}

#[test]
fn descriptor_record_from_what_is_reported() {
    let id = DescriptorId::in_characteristic(&characteristic(3), "desc0004").unwrap();
    let info = DescriptorInfo::from_properties(id.clone(), "00002902-0000-1000-8000-00805f9b34fb");
    assert_eq!(
        info,
        Ok(DescriptorInfo { id: id.clone(), uuid: Uuid::from_u128(0x00002902_0000_1000_8000_00805f9b34fb) })
    );
    assert!(matches!(
        DescriptorInfo::from_properties(id, ""),
        Err(BluetoothError::UUIDParseError(_))
    ));
}

#[test]
fn first_service_with_the_uuid_is_found() {
    let a = Uuid::from_u128(1);
    let b = Uuid::from_u128(2);
    let services = vec![
        ServiceInfo { id: service(1), uuid: a, primary: true },
        ServiceInfo { id: service(2), uuid: b, primary: true },
        ServiceInfo { id: service(3), uuid: b, primary: false },
    ];
    assert_eq!(ServiceInfo::find_by_uuid(&services, b), Ok(services[1].clone()));
    assert_eq!(ServiceInfo::find_by_uuid(&services, a), Ok(services[0].clone()));
    let c = Uuid::from_u128(3);
    assert_eq!(
        ServiceInfo::find_by_uuid(&services, c),
        Err(BluetoothError::UUIDNotFound { uuid: c })
    );
    assert_eq!(
        ServiceInfo::find_by_uuid(&vec![], a),
        Err(BluetoothError::UUIDNotFound { uuid: a })
    );
}

#[test]
fn first_characteristic_with_the_uuid_is_found() {
    let a = Uuid::from_u128(10);
    let b = Uuid::from_u128(20);
    let characteristics = vec![
        CharacteristicInfo { id: characteristic(1), uuid: a, flags: CharacteristicFlags::empty() },
        CharacteristicInfo { id: characteristic(2), uuid: b, flags: CharacteristicFlags::empty() },
    ];
    assert_eq!(
        CharacteristicInfo::find_by_uuid(&characteristics, b),
        Ok(characteristics[1].clone())
    );
    let c = Uuid::from_u128(30);
    assert_eq!(
        CharacteristicInfo::find_by_uuid(&characteristics, c),
        Err(BluetoothError::UUIDNotFound { uuid: c })
    );
}
