//! Hardware addresses of Bluetooth devices.

use vstd::prelude::*;
use vstd::string::*;
use crate::text::{chars_of, string_of};

verus! {

/// MAC address of a Bluetooth device.
#[derive(Clone, Debug, PartialEq, Eq, Hash, PartialOrd, Ord)]
pub struct MacAddress(String);

/// An error parsing a MAC address from a string.
#[derive(Clone, Debug, PartialEq, Eq)]
pub struct ParseMacAddressError();

/// A hexadecimal digit of either case.
pub open spec fn is_hex_digit(c: char) -> bool {
    ('0' <= c && c <= '9') || ('a' <= c && c <= 'f') || ('A' <= c && c <= 'F')
}

/// The upper-case form of a character that an address may hold.
pub open spec fn upper(c: char) -> char {
    if c == 'a' {
        'A'
    } else if c == 'b' {
        'B'
    } else if c == 'c' {
        'C'
    } else if c == 'd' {
        'D'
    } else if c == 'e' {
        'E'
    } else if c == 'f' {
        'F'
    } else {
        c
    }
}

/// The text of an address: six pairs of hexadecimal digits with a `:` between them.
pub open spec fn is_mac_text(s: Seq<char>) -> bool {
    &&& s.len() == 17
    &&& forall|i: int|
        0 <= i < 17 ==> if i % 3 == 2 {
            #[trigger] s[i] == ':'
        } else {
            is_hex_digit(s[i])
        }
}

/// The canonical form of an address text: every digit in upper case.
pub open spec fn canonical(s: Seq<char>) -> Seq<char> {
    Seq::new(s.len(), |i: int| upper(s[i]))
}

/// The canonical form of an address text is an address text, and its own canonical
/// form: parsing what was parsed changes nothing.
pub proof fn lemma_canonical(s: Seq<char>)
    requires
        is_mac_text(s),
    ensures
        is_mac_text(canonical(s)),
        canonical(canonical(s)) == canonical(s),
{
    let c = canonical(s);
    assert forall|i: int| 0 <= i < 17 implies if i % 3 == 2 {
        #[trigger] c[i] == ':'
    } else {
        is_hex_digit(c[i])
    } by {
        if i % 3 == 2 {
            assert(s[i] == ':');
        } else {
            assert(is_hex_digit(s[i]));
        }
    }
    assert(canonical(c) =~= c);
}

/// Tells whether `c` is a hexadecimal digit.
pub fn hex_digit(c: char) -> (ok: bool)
    ensures
        ok == is_hex_digit(c),
{
    ('0' <= c && c <= '9') || ('a' <= c && c <= 'f') || ('A' <= c && c <= 'F')
}

/// Returns the upper-case form of `c`.
pub fn to_upper(c: char) -> (u: char)
    ensures
        u == upper(c),
{
    match c {
        'a' => 'A',
        'b' => 'B',
        'c' => 'C',
        'd' => 'D',
        'e' => 'E',
        'f' => 'F',
        _ => c,
    }
}

impl View for MacAddress {
    type V = Seq<char>;

    /// The text of the address.
    closed spec fn view(&self) -> Seq<char> {
        self.0@
    }
}

impl MacAddress {
    /// Parses an address of the form `11:22:aa:bb:CC:DD` and puts it in upper case.
    pub fn parse(s: &str) -> (address: Result<MacAddress, ParseMacAddressError>)
        ensures
            address is Ok <==> is_mac_text(s@),
            address matches Ok(a) ==> a@ == canonical(s@),
    {
        let chars = chars_of(s);
        if chars.len() != 17 {
            return Err(ParseMacAddressError());
        }
        let mut out: Vec<char> = Vec::new();
        let mut i: usize = 0;
        while i < 17
            invariant
                i <= 17,
                chars@ == s@,
                chars.len() == 17,
                out.len() == i,
                forall|j: int|
                    0 <= j < i ==> if j % 3 == 2 {
                        #[trigger] chars@[j] == ':'
                    } else {
                        is_hex_digit(chars@[j])
                    },
                forall|j: int| 0 <= j < i ==> #[trigger] out@[j] == upper(chars@[j]),
            decreases 17 - i,
        {
            let c = chars[i];
            if i % 3 == 2 {
                if c != ':' {
                    assert(!is_mac_text(s@)) by {
                        assert(s@[i as int] != ':');
                    }
                    return Err(ParseMacAddressError());
                }
            } else if !hex_digit(c) {
                assert(!is_mac_text(s@)) by {
                    assert(!is_hex_digit(s@[i as int]));
                }
                return Err(ParseMacAddressError());
            }
            out.push(to_upper(c));
            i += 1;
        }
        assert(out@ =~= canonical(s@));
        Ok(MacAddress(string_of(&out)))
    }

    /// Takes the address as the daemon reports it, unchanged.
    pub fn from_reported(address: &str) -> (mac: MacAddress)
        ensures
            mac@ == address@,
    {
        MacAddress(address.to_owned())
    }

    /// The text of the address.
    pub fn as_str(&self) -> (text: &str)
        ensures
            text@ == self@,
    {
        self.0.as_str()
    }

    /// Returns the text of the address.
    pub fn to_string(&self) -> (text: String)
        ensures
            text@ == self@,
    {
        self.0.clone()
    }
}

impl std::str::FromStr for MacAddress {
    type Err = ParseMacAddressError;

    /// Parses an address as `MacAddress::parse` does.
    fn from_str(s: &str) -> (address: Result<Self, Self::Err>)
        ensures
            address is Ok <==> is_mac_text(s@),
            address matches Ok(a) ==> a@ == canonical(s@),
    {
        MacAddress::parse(s)
    }
}

} // verus!
