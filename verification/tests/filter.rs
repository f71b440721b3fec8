use bluez_async::property::{Property, PropertyValue};
use bluez_async::{DiscoveryFilter, Transport, Uuid};

#[test]
fn default_filter_sets_nothing() {
    let filter = DiscoveryFilter::default();
    assert_eq!(filter.service_uuids, vec![]);
    assert_eq!(filter.rssi_threshold, None);
    assert_eq!(filter.pattern, None);
    assert_eq!(filter.to_properties(), vec![]);
}

#[test]
fn only_the_rssi_threshold() {
    let filter = DiscoveryFilter { rssi_threshold: Some(-70), ..DiscoveryFilter::default() };
    assert_eq!(
        filter.to_properties(),
        vec![Property { name: "RSSI".to_string(), value: PropertyValue::I16(-70) }]
    );
}

#[test]
fn every_parameter_has_its_property() {
    let filter = DiscoveryFilter {
        service_uuids: vec![
            Uuid::from_u128(0x0000181a_0000_1000_8000_00805f9b34fb),
            Uuid::from_u128(0xEBE0CCB0_7A0A_4B0C_8A1A_6FF2997DA3A6),
        ],
        rssi_threshold: Some(-90),
        pathloss_threshold: Some(12),
        transport: Some(Transport::Le),
        duplicate_data: Some(true),
        discoverable: Some(false),
        pattern: Some("11:22".to_string()),
    };
    let named = |name: &str, value: PropertyValue| Property { name: name.to_string(), value };
    assert_eq!(
        filter.to_properties(),
        vec![
            named(
                "UUIDs",
                PropertyValue::TextList(vec![
                    "0000181a-0000-1000-8000-00805f9b34fb".to_string(),
                    "ebe0ccb0-7a0a-4b0c-8a1a-6ff2997da3a6".to_string(),
                ])
            ),
            named("RSSI", PropertyValue::I16(-90)),
            named("Pathloss", PropertyValue::U16(12)),
            named("Transport", PropertyValue::Text("le".to_string())),
            named("DuplicateData", PropertyValue::Bool(true)),
            named("Discoverable", PropertyValue::Bool(false)),
            named("Pattern", PropertyValue::Text("11:22".to_string())),
        ]
    );
}

#[test]
fn transport_words() {
    assert_eq!(Transport::Auto.as_str(), "auto");
    assert_eq!(Transport::BrEdr.as_str(), "bredr");
    assert_eq!(Transport::Le.as_str(), "le");
}
