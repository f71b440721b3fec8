use bluez_async::{BluetoothError, Capability, CharacteristicFlags};

const TOKENS: [&str; 15] = [
    "broadcast",
    "read",
    "write-without-response",
    "write",
    "notify",
    "indicate",
    "authenticated-signed-writes",
    "extended-properties",
    "reliable-write",
    "writable-auxiliaries",
    "encrypt-read",
    "encrypt-write",
    "encrypt-authenticated-read",
    "encrypt-authenticated-write",
    "authorize",
];

fn strings(tokens: &[&str]) -> Vec<String> {
    tokens.iter().map(|t| t.to_string()).collect()
}

#[test]
fn parse_flags() {
    let flags = CharacteristicFlags::from_tokens(&strings(&["read", "encrypt-write"])).unwrap();
    assert_eq!(flags.bits, 0x02 | 0x800);
    assert!(flags.contains(Capability::Read));
    assert!(flags.contains(Capability::EncryptWrite));
    assert!(!flags.contains(Capability::Write));
}

#[test]
fn parse_flags_fail() {
    let flags = CharacteristicFlags::from_tokens(&strings(&["read", "invalid flag"]));
    assert_eq!(flags, Err(BluetoothError::FlagParseError("invalid flag".to_string())));
}

#[test]
fn first_unknown_token_is_the_one_reported() {
    let flags = CharacteristicFlags::from_tokens(&strings(&["read", "bogus", "write", "worse"]));
    assert_eq!(flags, Err(BluetoothError::FlagParseError("bogus".to_string())));
}

#[test]
fn no_tokens_make_the_empty_set() {
    assert_eq!(CharacteristicFlags::from_tokens(&Vec::new()), Ok(CharacteristicFlags::empty()));
    assert_eq!(CharacteristicFlags::empty().bits, 0);
    assert_eq!(CharacteristicFlags::empty().tokens(), Vec::<String>::new());
}

#[test]
fn every_token_has_its_bit() {
    for (i, token) in TOKENS.iter().enumerate() {
        let flags = CharacteristicFlags::from_tokens(&strings(&[token])).unwrap();
        assert_eq!(flags.bits, 1 << i);
        assert_eq!(Capability::nth(i).as_str(), *token);
        assert_eq!(Capability::from_token(token), Some(Capability::nth(i)));
        assert_eq!(Capability::nth(i).bit(), 1 << i);
    }
}

#[test]
fn all_tokens_round_trip() {
    let flags = CharacteristicFlags::from_tokens(&strings(&TOKENS)).unwrap();
    assert_eq!(flags.bits, 0x7fff);
    assert_eq!(flags.tokens(), strings(&TOKENS));
    assert_eq!(CharacteristicFlags::from_tokens(&flags.tokens()), Ok(flags));
}

#[test]
fn every_set_round_trips() {
    for bits in 0..0x8000u16 {
        let flags = CharacteristicFlags { bits };
        assert_eq!(CharacteristicFlags::from_tokens(&flags.tokens()), Ok(flags));
    }
}

#[test]
fn repeated_and_unordered_tokens_decode_to_the_same_set() {
    let flags =
        CharacteristicFlags::from_tokens(&strings(&["notify", "read", "notify"])).unwrap();
    assert_eq!(flags.tokens(), strings(&["read", "notify"]));
}

#[test]
fn insert_adds_one_capability() {
    let mut flags = CharacteristicFlags::empty();
    flags.insert(Capability::Indicate);
    assert_eq!(flags.bits, 0x20);
    flags.insert(Capability::Indicate);
    assert_eq!(flags.bits, 0x20);
    flags.insert(Capability::Authorize);
    assert_eq!(flags.bits, 0x4020);
}
