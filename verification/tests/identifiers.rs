use std::cmp::Ordering;
use bluez_async::adapter::AdapterId;
use bluez_async::bleuuid::Uuid;
use bluez_async::characteristic::CharacteristicId;
use bluez_async::descriptor::DescriptorId;
use bluez_async::device::DeviceId;
use bluez_async::service::ServiceId;

#[test]
fn service_made_in_device_has_that_device() {
    let device = DeviceId::new("/org/bluez/hci0/dev_11_22_33_44_55_66").unwrap();
    let service = ServiceId::in_device(&device, "service0001").unwrap();
    assert_eq!(
        service.as_str(),
        "/org/bluez/hci0/dev_11_22_33_44_55_66/service0001"
    );
    assert_eq!(service.device(), device);
}

#[test]
fn characteristic_and_descriptor_lead_back_to_their_containers() {
    let device = DeviceId::new("/org/bluez/hci0/dev_11_22_33_44_55_66").unwrap();
    let service = ServiceId::in_device(&device, "service0022").unwrap();
    let characteristic = CharacteristicId::in_service(&service, "char0033").unwrap();
    let descriptor = DescriptorId::in_characteristic(&characteristic, "desc0034").unwrap();
    assert_eq!(descriptor.characteristic(), characteristic);
    assert_eq!(characteristic.service(), service);
    assert_eq!(service.device().adapter(), AdapterId::new("/org/bluez/hci0").unwrap());
}

#[test]
fn display_strips_the_root() {
    let device = DeviceId::new("/org/bluez/hci0/dev_11_22_33_44_55_66").unwrap();
    assert_eq!(device.display(), Some("hci0/dev_11_22_33_44_55_66".to_string()));
    let stranger = DeviceId::new("/com/example/hci0/dev_1").unwrap();
    assert_eq!(stranger.display(), None);
}

#[test]
fn uuid_text_is_hyphenated_lower_case() {
    let uuid = Uuid::from_u128(0x936DA01F9ABD4D9D80C702AF85C822A8);
    assert_eq!(uuid.to_string(), "936da01f-9abd-4d9d-80c7-02af85c822a8");
    assert_eq!(Uuid::parse_str("936DA01F-9ABD-4D9D-80C7-02AF85C822A8"), Ok(uuid));
}

#[test]
fn identifiers_need_enough_segments() {
    assert!(AdapterId::new("/org").is_some());
    assert!(AdapterId::new("hci0").is_none());
    assert!(DeviceId::new("/hci0").is_none());
    assert!(DeviceId::new("/hci0/dev_1").is_some());
    assert!(ServiceId::new("/hci0/dev_1").is_none());
    assert!(ServiceId::new("/hci0/dev_1/service1").is_some());
    assert!(CharacteristicId::new("/hci0/dev_1/service1").is_none());
    assert!(CharacteristicId::new("/hci0/dev_1/service1/char1").is_some());
    assert!(DescriptorId::new("/hci0/dev_1/service1/char1").is_none());
    assert!(DescriptorId::new("/hci0/dev_1/service1/char1/desc1").is_some());
}

#[test]
fn children_need_their_prefix() {
    let adapter = AdapterId::in_root("hci0").unwrap();
    assert_eq!(adapter.as_str(), "/org/bluez/hci0");
    assert_eq!(adapter.display(), Some("hci0".to_string()));
    assert!(AdapterId::in_root("dev_1").is_none());
    let device = DeviceId::on_adapter(&adapter, "dev_11_22_33_44_55_66").unwrap();
    assert_eq!(device.as_str(), "/org/bluez/hci0/dev_11_22_33_44_55_66");
    assert_eq!(device.adapter(), adapter);
    assert!(DeviceId::on_adapter(&adapter, "service0001").is_none());
    assert!(ServiceId::in_device(&device, "char0001").is_none());
    assert!(ServiceId::in_device(&device, "service/0001").is_none());
    let service = ServiceId::in_device(&device, "service0001").unwrap();
    assert!(CharacteristicId::in_service(&service, "desc0001").is_none());
    let characteristic = CharacteristicId::in_service(&service, "char0001").unwrap();
    assert!(DescriptorId::in_characteristic(&characteristic, "char0001").is_none());
}

#[test]
fn identifiers_are_ordered_by_path() {
    let a = DeviceId::new("/org/bluez/hci0/dev_1").unwrap();
    let b = DeviceId::new("/org/bluez/hci0/dev_2").unwrap();
    assert!(a < b);
    assert_ne!(a, b);
    assert_eq!(a.clone(), a);
}

#[test]
fn uuid_parsing() {
    assert_eq!(
        Uuid::parse_str("ebe0ccb07a0a4b0c8a1a6ff2997da3a6"),
        Ok(Uuid::from_u128(0xebe0ccb0_7a0a_4b0c_8a1a_6ff2997da3a6))
    );
    assert!(Uuid::parse_str("ebe0ccb0-7a0a-4b0c-8a1a").is_err());
    assert!(Uuid::parse_str("").is_err());
    assert_eq!(Uuid::from_u128(5).as_u128(), 5);
    assert_eq!(Uuid::from_u128(0).to_string(), "00000000-0000-0000-0000-000000000000");
    assert_eq!(
        Uuid::from_u128(0x0123456789abcdef_fedcba9876543210).to_string(),
        "01234567-89ab-cdef-fedc-ba9876543210"
    );
}

#[test]
fn order_is_by_the_first_differing_character() {
    let id = |path: &str| AdapterId::new(path).unwrap();
    let paths = ["/a", "/a/b", "/a0", "/aZ", "/a_", "/ab", "/b", "/B"];
    for x in paths {
        for y in paths {
            assert_eq!(id(x).partial_cmp(&id(y)), Some(x.cmp(y)));
            assert_eq!(id(x).cmp(&id(y)), x.cmp(y));
            assert_eq!(id(x) == id(y), x == y);
        }
    }
    assert_eq!(id("/a").partial_cmp(&id("/a/b")), Some(Ordering::Less));
    assert_eq!(bluez_async::text::compare_text("b", "a\u{e9}"), Ordering::Greater);
    assert_eq!(bluez_async::text::compare_text("a\u{e9}", "az"), Ordering::Greater);
    assert_eq!(bluez_async::text::compare_text("", ""), Ordering::Equal);
    assert_eq!(bluez_async::text::first_difference(&vec!['a', 'b'], &vec!['a', 'c']), 1);
}
