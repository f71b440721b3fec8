use bluez_async::{MacAddress, ParseMacAddressError};

#[test]
fn parses_and_puts_in_upper_case() {
    let address = MacAddress::parse("11:22:aa:bb:Cc:dD").unwrap();
    assert_eq!(address.to_string(), "11:22:AA:BB:CC:DD");
    assert_eq!("00:1a:2b:3c:4d:5e".parse::<MacAddress>().unwrap().as_str(), "00:1A:2B:3C:4D:5E");
}

#[test]
fn refuses_wrong_number_of_octets() {
    assert_eq!(MacAddress::parse("11:22:33:44:55"), Err(ParseMacAddressError()));
    assert_eq!(MacAddress::parse("11:22:33:44:55:66:77"), Err(ParseMacAddressError()));
    assert_eq!(MacAddress::parse(""), Err(ParseMacAddressError()));
}

#[test]
fn refuses_wrong_octet_length() {
    assert_eq!(MacAddress::parse("11:22:33:44:55:6"), Err(ParseMacAddressError()));
    assert_eq!(MacAddress::parse("111:22:33:44:55:6"), Err(ParseMacAddressError()));
    assert_eq!(MacAddress::parse("1122:33:44:55:66:"), Err(ParseMacAddressError()));
}

#[test]
fn refuses_what_is_no_hexadecimal_digit() {
    assert_eq!(MacAddress::parse("11:22:33:44:55:6g"), Err(ParseMacAddressError()));
    assert_eq!(MacAddress::parse("11:22:33:44:55:\u{e9}"), Err(ParseMacAddressError()));
    assert_eq!(MacAddress::parse("11-22-33-44-55-66"), Err(ParseMacAddressError()));
}

#[test]
fn reported_address_is_kept_as_it_is() {
    assert_eq!(MacAddress::from_reported("aa:bb").as_str(), "aa:bb");
}

#[test]
fn parsing_what_was_parsed_changes_nothing() {
    let once = MacAddress::parse("de:ad:be:ef:00:0a").unwrap();
    assert_eq!(once.as_str(), "DE:AD:BE:EF:00:0A");
    let twice = MacAddress::parse(once.as_str()).unwrap();
    assert_eq!(twice, once);
}
