//! The capabilities of a GATT characteristic, and the tokens by which the daemon
//! names them.

use vstd::prelude::*;
use vstd::string::*;
use crate::error::BluetoothError;
use crate::property::texts;
use crate::text::same_text;

verus! {

/// One thing that a characteristic may allow.
#[derive(Copy, Clone, Debug, PartialEq, Eq, Structural, Hash)]
pub enum Capability {
    Broadcast,
    Read,
    WriteWithoutResponse,
    Write,
    Notify,
    Indicate,
    SignedWrite,
    ExtendedProperties,
    ReliableWrite,
    WritableAuxiliaries,
    EncryptRead,
    EncryptWrite,
    EncryptAuthenticatedRead,
    EncryptAuthenticatedWrite,
    Authorize,
}

/// The set of capabilities of a characteristic, one bit for each.
#[derive(Copy, Clone, Debug, PartialEq, Eq, Structural, Hash)]
pub struct CharacteristicFlags {
    pub bits: u16,
}

impl Capability {
    /// The bit that stands for the capability.
    pub open spec fn mask(self) -> u16 {
        match self {
            Capability::Broadcast => 0x01,
            Capability::Read => 0x02,
            Capability::WriteWithoutResponse => 0x04,
            Capability::Write => 0x08,
            Capability::Notify => 0x10,
            Capability::Indicate => 0x20,
            Capability::SignedWrite => 0x40,
            Capability::ExtendedProperties => 0x80,
            Capability::ReliableWrite => 0x100,
            Capability::WritableAuxiliaries => 0x200,
            Capability::EncryptRead => 0x400,
            Capability::EncryptWrite => 0x800,
            Capability::EncryptAuthenticatedRead => 0x1000,
            Capability::EncryptAuthenticatedWrite => 0x2000,
            Capability::Authorize => 0x4000,
        }
    }

    /// The place of the capability among the fifteen, by rising bit.
    pub open spec fn index(self) -> int {
        match self {
            Capability::Broadcast => 0,
            Capability::Read => 1,
            Capability::WriteWithoutResponse => 2,
            Capability::Write => 3,
            Capability::Notify => 4,
            Capability::Indicate => 5,
            Capability::SignedWrite => 6,
            Capability::ExtendedProperties => 7,
            Capability::ReliableWrite => 8,
            Capability::WritableAuxiliaries => 9,
            Capability::EncryptRead => 10,
            Capability::EncryptWrite => 11,
            Capability::EncryptAuthenticatedRead => 12,
            Capability::EncryptAuthenticatedWrite => 13,
            Capability::Authorize => 14,
        }
    }

    /// The capability at place `index`.
    pub open spec fn at(index: int) -> Capability {
        if index == 0 {
            Capability::Broadcast
        } else if index == 1 {
            Capability::Read
        } else if index == 2 {
            Capability::WriteWithoutResponse
        } else if index == 3 {
            Capability::Write
        } else if index == 4 {
            Capability::Notify
        } else if index == 5 {
            Capability::Indicate
        } else if index == 6 {
            Capability::SignedWrite
        } else if index == 7 {
            Capability::ExtendedProperties
        } else if index == 8 {
            Capability::ReliableWrite
        } else if index == 9 {
            Capability::WritableAuxiliaries
        } else if index == 10 {
            Capability::EncryptRead
        } else if index == 11 {
            Capability::EncryptWrite
        } else if index == 12 {
            Capability::EncryptAuthenticatedRead
        } else if index == 13 {
            Capability::EncryptAuthenticatedWrite
        } else {
            Capability::Authorize
        }
    }

    /// The token by which the daemon names the capability.
    pub open spec fn token(self) -> Seq<char> {
        match self {
            Capability::Broadcast => "broadcast"@,
            Capability::Read => "read"@,
            Capability::WriteWithoutResponse => "write-without-response"@,
            Capability::Write => "write"@,
            Capability::Notify => "notify"@,
            Capability::Indicate => "indicate"@,
            Capability::SignedWrite => "authenticated-signed-writes"@,
            Capability::ExtendedProperties => "extended-properties"@,
            Capability::ReliableWrite => "reliable-write"@,
            Capability::WritableAuxiliaries => "writable-auxiliaries"@,
            Capability::EncryptRead => "encrypt-read"@,
            Capability::EncryptWrite => "encrypt-write"@,
            Capability::EncryptAuthenticatedRead => "encrypt-authenticated-read"@,
            Capability::EncryptAuthenticatedWrite => "encrypt-authenticated-write"@,
            Capability::Authorize => "authorize"@,
        }
    }

    /// The capability that `token` names, if it names one.
    pub open spec fn of_token(token: Seq<char>) -> Option<Capability> {
        if token == "broadcast"@ {
            Some(Capability::Broadcast)
        } else if token == "read"@ {
            Some(Capability::Read)
        } else if token == "write-without-response"@ {
            Some(Capability::WriteWithoutResponse)
        } else if token == "write"@ {
            Some(Capability::Write)
        } else if token == "notify"@ {
            Some(Capability::Notify)
        } else if token == "indicate"@ {
            Some(Capability::Indicate)
        } else if token == "authenticated-signed-writes"@ {
            Some(Capability::SignedWrite)
        } else if token == "extended-properties"@ {
            Some(Capability::ExtendedProperties)
        } else if token == "reliable-write"@ {
            Some(Capability::ReliableWrite)
        } else if token == "writable-auxiliaries"@ {
            Some(Capability::WritableAuxiliaries)
        } else if token == "encrypt-read"@ {
            Some(Capability::EncryptRead)
        } else if token == "encrypt-write"@ {
            Some(Capability::EncryptWrite)
        } else if token == "encrypt-authenticated-read"@ {
            Some(Capability::EncryptAuthenticatedRead)
        } else if token == "encrypt-authenticated-write"@ {
            Some(Capability::EncryptAuthenticatedWrite)
        } else if token == "authorize"@ {
            Some(Capability::Authorize)
        } else {
            None
        }
    }

    /// Every capability has a place of its own among the fifteen.
    pub proof fn lemma_index(self)
        ensures
            0 <= self.index() < 15,
            Capability::at(self.index()) == self,
    {
    }

    /// Every capability has a token of its own: the token names the capability, and
    /// no other token does.
    pub proof fn lemma_token(self)
        ensures
            Capability::of_token(self.token()) == Some(self),
            forall|token: Seq<char>|
                Capability::of_token(token) == Some(self) ==> token == self.token(),
    {
        reveal_strlit("broadcast");
        reveal_strlit("read");
        reveal_strlit("write-without-response");
        reveal_strlit("write");
        reveal_strlit("notify");
        reveal_strlit("indicate");
        reveal_strlit("authenticated-signed-writes");
        reveal_strlit("extended-properties");
        reveal_strlit("reliable-write");
        reveal_strlit("writable-auxiliaries");
        reveal_strlit("encrypt-read");
        reveal_strlit("encrypt-write");
        reveal_strlit("encrypt-authenticated-read");
        reveal_strlit("encrypt-authenticated-write");
        reveal_strlit("authorize");
        assert("broadcast"@.len() == 9);
        assert("read"@.len() == 4);
        assert("write-without-response"@.len() == 22);
        assert("write"@.len() == 5);
        assert("notify"@.len() == 6);
        assert("indicate"@.len() == 8);
        assert("authenticated-signed-writes"@.len() == 27);
        assert("extended-properties"@.len() == 19);
        assert("reliable-write"@.len() == 14);
        assert("writable-auxiliaries"@.len() == 20);
        assert("encrypt-read"@.len() == 12);
        assert("encrypt-write"@.len() == 13);
        assert("encrypt-authenticated-read"@.len() == 26);
        assert("encrypt-authenticated-write"@.len() == 27);
        assert("authorize"@.len() == 9);
        assert("broadcast"@[0] == 'b');
        assert("authorize"@[0] == 'a');
        assert("authenticated-signed-writes"@[0] == 'a');
        assert("encrypt-authenticated-write"@[0] == 'e');
    }

    /// Returns the bit that stands for the capability.
    pub fn bit(&self) -> (bit: u16)
        ensures
            bit == self.mask(),
    {
        match self {
            Capability::Broadcast => 0x01,
            Capability::Read => 0x02,
            Capability::WriteWithoutResponse => 0x04,
            Capability::Write => 0x08,
            Capability::Notify => 0x10,
            Capability::Indicate => 0x20,
            Capability::SignedWrite => 0x40,
            Capability::ExtendedProperties => 0x80,
            Capability::ReliableWrite => 0x100,
            Capability::WritableAuxiliaries => 0x200,
            Capability::EncryptRead => 0x400,
            Capability::EncryptWrite => 0x800,
            Capability::EncryptAuthenticatedRead => 0x1000,
            Capability::EncryptAuthenticatedWrite => 0x2000,
            Capability::Authorize => 0x4000,
        }
    }

    /// Returns the capability at place `index`.
    pub fn nth(index: usize) -> (capability: Capability)
        requires
            index < 15,
        ensures
            capability == Capability::at(index as int),
    {
        if index == 0 {
            Capability::Broadcast
        } else if index == 1 {
            Capability::Read
        } else if index == 2 {
            Capability::WriteWithoutResponse
        } else if index == 3 {
            Capability::Write
        } else if index == 4 {
            Capability::Notify
        } else if index == 5 {
            Capability::Indicate
        } else if index == 6 {
            Capability::SignedWrite
        } else if index == 7 {
            Capability::ExtendedProperties
        } else if index == 8 {
            Capability::ReliableWrite
        } else if index == 9 {
            Capability::WritableAuxiliaries
        } else if index == 10 {
            Capability::EncryptRead
        } else if index == 11 {
            Capability::EncryptWrite
        } else if index == 12 {
            Capability::EncryptAuthenticatedRead
        } else if index == 13 {
            Capability::EncryptAuthenticatedWrite
        } else {
            Capability::Authorize
        }
    }

    /// Returns the token by which the daemon names the capability.
    pub fn as_str(&self) -> (token: &'static str)
        ensures
            token@ == self.token(),
    {
        match self {
            Capability::Broadcast => "broadcast",
            Capability::Read => "read",
            Capability::WriteWithoutResponse => "write-without-response",
            Capability::Write => "write",
            Capability::Notify => "notify",
            Capability::Indicate => "indicate",
            Capability::SignedWrite => "authenticated-signed-writes",
            Capability::ExtendedProperties => "extended-properties",
            Capability::ReliableWrite => "reliable-write",
            Capability::WritableAuxiliaries => "writable-auxiliaries",
            Capability::EncryptRead => "encrypt-read",
            Capability::EncryptWrite => "encrypt-write",
            Capability::EncryptAuthenticatedRead => "encrypt-authenticated-read",
            Capability::EncryptAuthenticatedWrite => "encrypt-authenticated-write",
            Capability::Authorize => "authorize",
        }
    }

    /// Reads a capability from the token that names it.
    pub fn from_token(token: &str) -> (capability: Option<Capability>)
        ensures
            capability == Capability::of_token(token@),
    {
        if same_text(token, "broadcast") {
            Some(Capability::Broadcast)
        } else if same_text(token, "read") {
            Some(Capability::Read)
        } else if same_text(token, "write-without-response") {
            Some(Capability::WriteWithoutResponse)
        } else if same_text(token, "write") {
            Some(Capability::Write)
        } else if same_text(token, "notify") {
            Some(Capability::Notify)
        } else if same_text(token, "indicate") {
            Some(Capability::Indicate)
        } else if same_text(token, "authenticated-signed-writes") {
            Some(Capability::SignedWrite)
        } else if same_text(token, "extended-properties") {
            Some(Capability::ExtendedProperties)
        } else if same_text(token, "reliable-write") {
            Some(Capability::ReliableWrite)
        } else if same_text(token, "writable-auxiliaries") {
            Some(Capability::WritableAuxiliaries)
        } else if same_text(token, "encrypt-read") {
            Some(Capability::EncryptRead)
        } else if same_text(token, "encrypt-write") {
            Some(Capability::EncryptWrite)
        } else if same_text(token, "encrypt-authenticated-read") {
            Some(Capability::EncryptAuthenticatedRead)
        } else if same_text(token, "encrypt-authenticated-write") {
            Some(Capability::EncryptAuthenticatedWrite)
        } else if same_text(token, "authorize") {
            Some(Capability::Authorize)
        } else {
            None
        }
    }
}

/// Setting one bit sets the capability of that bit and changes no other.
pub proof fn lemma_set_bit(a: u16, c: Capability, d: Capability)
    ensures
        ((a | c.mask()) & d.mask() != 0) == ((a & d.mask() != 0) || c == d),
        a <= 0x7fff ==> (a | c.mask()) <= 0x7fff,
        (0u16 & d.mask()) == 0,
{
    let m = c.mask();
    let n = d.mask();
    assert(c == d <==> m == n);
    assert(((a | m) & n != 0) == ((a & n != 0) || m == n)) by (bit_vector)
        requires
            m == 0x01 || m == 0x02 || m == 0x04 || m == 0x08 || m == 0x10 || m == 0x20 || m == 0x40 || m == 0x80 || m == 0x100 || m == 0x200 || m == 0x400 || m == 0x800 || m == 0x1000 || m == 0x2000 || m == 0x4000,
            n == 0x01 || n == 0x02 || n == 0x04 || n == 0x08 || n == 0x10 || n == 0x20 || n == 0x40 || n == 0x80 || n == 0x100 || n == 0x200 || n == 0x400 || n == 0x800 || n == 0x1000 || n == 0x2000 || n == 0x4000,
    ;
    assert(a <= 0x7fff ==> (a | m) <= 0x7fff) by (bit_vector)
        requires
            m == 0x01 || m == 0x02 || m == 0x04 || m == 0x08 || m == 0x10 || m == 0x20 || m == 0x40 || m == 0x80 || m == 0x100 || m == 0x200 || m == 0x400 || m == 0x800 || m == 0x1000 || m == 0x2000 || m == 0x4000,
    ;
    assert((0u16 & n) == 0) by (bit_vector);
}

/// Two sets of fifteen bits that agree on every capability are the same set.
proof fn lemma_same_bits(a: u16, b: u16)
    requires
        a <= 0x7fff,
        b <= 0x7fff,
            (a & 0x01 != 0) == (b & 0x01 != 0),
            (a & 0x02 != 0) == (b & 0x02 != 0),
            (a & 0x04 != 0) == (b & 0x04 != 0),
            (a & 0x08 != 0) == (b & 0x08 != 0),
            (a & 0x10 != 0) == (b & 0x10 != 0),
            (a & 0x20 != 0) == (b & 0x20 != 0),
            (a & 0x40 != 0) == (b & 0x40 != 0),
            (a & 0x80 != 0) == (b & 0x80 != 0),
            (a & 0x100 != 0) == (b & 0x100 != 0),
            (a & 0x200 != 0) == (b & 0x200 != 0),
            (a & 0x400 != 0) == (b & 0x400 != 0),
            (a & 0x800 != 0) == (b & 0x800 != 0),
            (a & 0x1000 != 0) == (b & 0x1000 != 0),
            (a & 0x2000 != 0) == (b & 0x2000 != 0),
            (a & 0x4000 != 0) == (b & 0x4000 != 0),
    ensures
        a == b,
{
    assert(a == b) by (bit_vector)
        requires
            a <= 0x7fff,
            b <= 0x7fff,
            (a & 0x01 != 0) == (b & 0x01 != 0),
            (a & 0x02 != 0) == (b & 0x02 != 0),
            (a & 0x04 != 0) == (b & 0x04 != 0),
            (a & 0x08 != 0) == (b & 0x08 != 0),
            (a & 0x10 != 0) == (b & 0x10 != 0),
            (a & 0x20 != 0) == (b & 0x20 != 0),
            (a & 0x40 != 0) == (b & 0x40 != 0),
            (a & 0x80 != 0) == (b & 0x80 != 0),
            (a & 0x100 != 0) == (b & 0x100 != 0),
            (a & 0x200 != 0) == (b & 0x200 != 0),
            (a & 0x400 != 0) == (b & 0x400 != 0),
            (a & 0x800 != 0) == (b & 0x800 != 0),
            (a & 0x1000 != 0) == (b & 0x1000 != 0),
            (a & 0x2000 != 0) == (b & 0x2000 != 0),
            (a & 0x4000 != 0) == (b & 0x4000 != 0),
    ;
}

/// What decoding a list of tokens gives: the set of the capabilities that they name,
/// or the first token that names none.
pub open spec fn decoded_flags(tokens: Seq<Seq<char>>) -> Result<CharacteristicFlags, Seq<char>>
    decreases tokens.len(),
{
    if tokens.len() == 0 {
        Ok(CharacteristicFlags { bits: 0 })
    } else {
        match decoded_flags(tokens.drop_last()) {
            Err(bad) => Err(bad),
            Ok(flags) => match Capability::of_token(tokens.last()) {
                Some(capability) => Ok(flags.with(capability)),
                None => Err(tokens.last()),
            },
        }
    }
}

impl CharacteristicFlags {
    /// Only the fifteen bits that stand for a capability may be set.
    pub open spec fn wf(self) -> bool {
        self.bits <= 0x7fff
    }

    /// The set holds `capability`.
    pub open spec fn has(self, capability: Capability) -> bool {
        self.bits & capability.mask() != 0
    }

    /// The set with `capability` added.
    pub open spec fn with(self, capability: Capability) -> CharacteristicFlags {
        CharacteristicFlags { bits: self.bits | capability.mask() }
    }

    /// The tokens of the capabilities below place `n` that the set holds, by rising
    /// place.
    pub open spec fn tokens_below(self, n: nat) -> Seq<Seq<char>>
        decreases n,
    {
        if n == 0 {
            seq![]
        } else {
            let rest = self.tokens_below((n - 1) as nat);
            let capability = Capability::at(n - 1);
            if self.has(capability) {
                rest.push(capability.token())
            } else {
                rest
            }
        }
    }

    /// The tokens of the capabilities that the set holds, by rising bit.
    pub open spec fn token_list(self) -> Seq<Seq<char>> {
        self.tokens_below(15)
    }

    /// Two well-formed sets that hold the same capabilities are equal.
    pub proof fn lemma_equal(self, other: CharacteristicFlags)
        requires
            self.wf(),
            other.wf(),
            forall|c: Capability| self.has(c) == other.has(c),
        ensures
            self == other,
    {
        assert(self.has(Capability::Broadcast) == other.has(Capability::Broadcast));
        assert(self.has(Capability::Read) == other.has(Capability::Read));
        assert(self.has(Capability::WriteWithoutResponse) == other.has(Capability::WriteWithoutResponse));
        assert(self.has(Capability::Write) == other.has(Capability::Write));
        assert(self.has(Capability::Notify) == other.has(Capability::Notify));
        assert(self.has(Capability::Indicate) == other.has(Capability::Indicate));
        assert(self.has(Capability::SignedWrite) == other.has(Capability::SignedWrite));
        assert(self.has(Capability::ExtendedProperties) == other.has(Capability::ExtendedProperties));
        assert(self.has(Capability::ReliableWrite) == other.has(Capability::ReliableWrite));
        assert(self.has(Capability::WritableAuxiliaries) == other.has(Capability::WritableAuxiliaries));
        assert(self.has(Capability::EncryptRead) == other.has(Capability::EncryptRead));
        assert(self.has(Capability::EncryptWrite) == other.has(Capability::EncryptWrite));
        assert(self.has(Capability::EncryptAuthenticatedRead) == other.has(Capability::EncryptAuthenticatedRead));
        assert(self.has(Capability::EncryptAuthenticatedWrite) == other.has(Capability::EncryptAuthenticatedWrite));
        assert(self.has(Capability::Authorize) == other.has(Capability::Authorize));
        lemma_same_bits(self.bits, other.bits);
    }

    /// Returns the set that holds no capability.
    pub fn empty() -> (flags: CharacteristicFlags)
        ensures
            flags.bits == 0,
            flags.wf(),
            forall|c: Capability| !flags.has(c),
    {
        proof {
            assert forall|c: Capability| (0u16 & c.mask()) == 0 by {
                lemma_set_bit(0, c, c);
            }
        }
        CharacteristicFlags { bits: 0 }
    }

    /// Tells whether the set holds `capability`.
    pub fn contains(&self, capability: Capability) -> (held: bool)
        ensures
            held == self.has(capability),
    {
        self.bits & capability.bit() != 0
    }

    /// Adds `capability` to the set.
    pub fn insert(&mut self, capability: Capability)
        ensures
            *final(self) == old(self).with(capability),
            forall|c: Capability| final(self).has(c) == (old(self).has(c) || c == capability),
            old(self).wf() ==> final(self).wf(),
    {
        proof {
            assert forall|c: Capability|
                ((self.bits | capability.mask()) & c.mask() != 0) == ((self.bits & c.mask() != 0)
                    || c == capability) by {
                lemma_set_bit(self.bits, capability, c);
            }
            lemma_set_bit(self.bits, capability, capability);
        }
        self.bits = self.bits | capability.bit();
    }

    /// Decodes the set from the tokens of its capabilities. All of them must be known:
    /// the first that is not is handed back in the error.
    pub fn from_tokens(tokens: &Vec<String>) -> (flags: Result<CharacteristicFlags, BluetoothError>)
        ensures
            match decoded_flags(texts(tokens@)) {
                Ok(set) => flags matches Ok(f) && f == set,
                Err(bad) => flags matches Err(BluetoothError::FlagParseError(token)) && token@
                    == bad,
            },
    {
        let mut flags = CharacteristicFlags::empty();
        let mut i: usize = 0;
        while i < tokens.len()
            invariant
                i <= tokens.len(),
                decoded_flags(texts(tokens@).subrange(0, i as int)) == Ok::<
                    CharacteristicFlags,
                    Seq<char>,
                >(flags),
            decreases tokens.len() - i,
        {
            proof {
                assert(texts(tokens@).subrange(0, i + 1).drop_last() =~= texts(tokens@).subrange(
                    0,
                    i as int,
                ));
            }
            match Capability::from_token(tokens[i].as_str()) {
                Some(capability) => {
                    flags.insert(capability);
                },
                None => {
                    proof {
                        lemma_error_stays(texts(tokens@), i + 1);
                    }
                    return Err(BluetoothError::FlagParseError(tokens[i].clone()));
                },
            }
            i += 1;
        }
        assert(texts(tokens@).subrange(0, i as int) =~= texts(tokens@));
        Ok(flags)
    }

    /// Returns the tokens of the capabilities that the set holds, by rising bit.
    pub fn tokens(&self) -> (list: Vec<String>)
        ensures
            texts(list@) == self.token_list(),
    {
        let mut list: Vec<String> = Vec::new();
        let mut i: usize = 0;
        assert(texts(list@) =~= seq![]);
        while i < 15
            invariant
                i <= 15,
                texts(list@) == self.tokens_below(i as nat),
            decreases 15 - i,
        {
            let capability = Capability::nth(i);
            let ghost before = list@;
            if self.contains(capability) {
                list.push(capability.as_str().to_owned());
                assert(texts(list@) =~= texts(before).push(capability.token()));
            }
            i += 1;
        }
        list
    }
}

/// Once a token has been refused, the tokens behind it change nothing.
pub proof fn lemma_error_stays(tokens: Seq<Seq<char>>, n: int)
    requires
        0 <= n <= tokens.len(),
        decoded_flags(tokens.subrange(0, n)) is Err,
    ensures
        decoded_flags(tokens) == decoded_flags(tokens.subrange(0, n)),
    decreases tokens.len() - n,
{
    if n < tokens.len() {
        assert(tokens.subrange(0, n + 1).drop_last() =~= tokens.subrange(0, n));
        lemma_error_stays(tokens, n + 1);
    } else {
        assert(tokens.subrange(0, n) =~= tokens);
    }
}

/// Decoding succeeds exactly when every token names a capability, and then gives the
/// well-formed set of the capabilities named; else it fails with the first token that
/// names none.
pub proof fn lemma_decoded_flags(tokens: Seq<Seq<char>>)
    ensures
        match decoded_flags(tokens) {
            Ok(set) => {
                &&& set.wf()
                &&& forall|i: int|
                    0 <= i < tokens.len() ==> Capability::of_token(#[trigger] tokens[i]) is Some
                &&& forall|c: Capability|
                    set.has(c) <==> exists|i: int|
                        0 <= i < tokens.len() && Capability::of_token(#[trigger] tokens[i])
                            == Some(c)
            },
            Err(bad) => exists|i: int|
                {
                    &&& 0 <= i < tokens.len()
                    &&& #[trigger] tokens[i] == bad
                    &&& Capability::of_token(bad) is None
                    &&& forall|j: int|
                        0 <= j < i ==> Capability::of_token(#[trigger] tokens[j]) is Some
                },
        },
    decreases tokens.len(),
{
    if tokens.len() == 0 {
        assert forall|c: Capability| !(CharacteristicFlags { bits: 0 }).has(c) by {
            lemma_set_bit(0, c, c);
        }
    } else {
        let front = tokens.drop_last();
        lemma_decoded_flags(front);
        match decoded_flags(front) {
            Err(bad) => {
                let i = choose|i: int|
                    {
                        &&& 0 <= i < front.len()
                        &&& #[trigger] front[i] == bad
                        &&& Capability::of_token(bad) is None
                        &&& forall|j: int|
                            0 <= j < i ==> Capability::of_token(#[trigger] front[j]) is Some
                    };
                assert(tokens[i] == bad);
                assert forall|j: int| 0 <= j < i implies Capability::of_token(
                    #[trigger] tokens[j],
                ) is Some by {
                    assert(tokens[j] == front[j]);
                }
            },
            Ok(flags) => {
                assert forall|j: int| 0 <= j < front.len() implies Capability::of_token(
                    #[trigger] tokens[j],
                ) is Some by {
                    assert(tokens[j] == front[j]);
                }
                match Capability::of_token(tokens.last()) {
                    None => {
                        assert(tokens[tokens.len() - 1] == tokens.last());
                    },
                    Some(added) => {
                        let set = flags.with(added);
                        lemma_set_bit(flags.bits, added, added);
                        assert forall|c: Capability|
                            set.has(c) <==> exists|i: int|
                                0 <= i < tokens.len() && Capability::of_token(
                                    #[trigger] tokens[i],
                                ) == Some(c) by {
                            lemma_set_bit(flags.bits, added, c);
                            if flags.has(c) {
                                let i = choose|i: int|
                                    0 <= i < front.len() && Capability::of_token(
                                        #[trigger] front[i],
                                    ) == Some(c);
                                assert(tokens[i] == front[i]);
                            }
                            if c == added {
                                assert(tokens[tokens.len() - 1] == tokens.last());
                            }
                            if exists|i: int|
                                0 <= i < tokens.len() && Capability::of_token(
                                    #[trigger] tokens[i],
                                ) == Some(c) {
                                let i = choose|i: int|
                                    0 <= i < tokens.len() && Capability::of_token(
                                        #[trigger] tokens[i],
                                    ) == Some(c);
                                if i < front.len() {
                                    assert(front[i] == tokens[i]);
                                }
                            }
                        }
                    },
                }
            },
        }
    }
}

/// The tokens of the capabilities below place `n` decode to the set of just those
/// capabilities.
proof fn lemma_round_trip_below(flags: CharacteristicFlags, n: nat)
    requires
        n <= 15,
    ensures
        decoded_flags(flags.tokens_below(n)) matches Ok(set) && set.wf() && forall|
            c: Capability,
        |
            set.has(c) == (flags.has(c) && c.index() < n),
    decreases n,
{
    if n == 0 {
        assert forall|c: Capability| !(CharacteristicFlags { bits: 0 }).has(c) by {
            lemma_set_bit(0, c, c);
        }
    } else {
        let m = (n - 1) as nat;
        lemma_round_trip_below(flags, m);
        let rest = flags.tokens_below(m);
        let before = decoded_flags(rest)->Ok_0;
        let added = Capability::at(n - 1);
        assert forall|c: Capability| (c.index() < n) == (c.index() < m || c == added) by {
            c.lemma_index();
        }
        if flags.has(added) {
            added.lemma_token();
            assert(rest.push(added.token()).drop_last() =~= rest);
            let set = before.with(added);
            lemma_set_bit(before.bits, added, added);
            assert forall|c: Capability| set.has(c) == (flags.has(c) && c.index() < n) by {
                lemma_set_bit(before.bits, added, c);
            }
        }
    }
}

/// Writing a well-formed set as tokens and decoding them gives the set back.
pub proof fn lemma_flags_round_trip(flags: CharacteristicFlags)
    requires
        flags.wf(),
    ensures
        decoded_flags(flags.token_list()) == Ok::<CharacteristicFlags, Seq<char>>(flags),
{
    lemma_round_trip_below(flags, 15);
    let set = decoded_flags(flags.token_list())->Ok_0;
    assert forall|c: Capability| set.has(c) == flags.has(c) by {
        c.lemma_index();
    }
    set.lemma_equal(flags);
}

/// The tokens of a set are the tokens of the capabilities that it holds.
pub proof fn lemma_token_list(flags: CharacteristicFlags, n: nat)
    requires
        n <= 15,
    ensures
        forall|token: Seq<char>|
            flags.tokens_below(n).contains(token) <==> exists|c: Capability|
                flags.has(c) && c.index() < n && #[trigger] c.token() == token,
    decreases n,
{
    if n > 0 {
        let m = (n - 1) as nat;
        lemma_token_list(flags, m);
        let rest = flags.tokens_below(m);
        let list = flags.tokens_below(n);
        let last = Capability::at(n - 1);
        assert forall|c: Capability| (c.index() < n) == (c.index() < m || c == last) by {
            c.lemma_index();
        }
        assert forall|token: Seq<char>|
            list.contains(token) <==> exists|c: Capability|
                flags.has(c) && c.index() < n && #[trigger] c.token() == token by {
            if list.contains(token) {
                let i = choose|i: int| 0 <= i < list.len() && list[i] == token;
                if i < rest.len() {
                    assert(rest[i] == token);
                    assert(rest.contains(token));
                    let c = choose|c: Capability|
                        flags.has(c) && c.index() < m && #[trigger] c.token() == token;
                    assert(flags.has(c) && c.index() < n && c.token() == token);
                } else {
                    assert(flags.has(last) && last.index() < n && last.token() == token);
                }
            }
            if exists|c: Capability| flags.has(c) && c.index() < n && #[trigger] c.token() == token {
                let c = choose|c: Capability|
                    flags.has(c) && c.index() < n && #[trigger] c.token() == token;
                if c == last {
                    assert(list[list.len() - 1] == token);
                } else {
                    assert(flags.has(c) && c.index() < m && c.token() == token);
                    assert(rest.contains(token));
                    let i = choose|i: int| 0 <= i < rest.len() && rest[i] == token;
                    assert(list[i] == token);
                }
            }
        }
    }
}

/// Decoding a list of known tokens and writing the set as tokens again gives the same
/// tokens, but for their order and number.
pub proof fn lemma_tokens_round_trip(tokens: Seq<Seq<char>>)
    requires
        decoded_flags(tokens) is Ok,
    ensures
        forall|token: Seq<char>|
            decoded_flags(tokens)->Ok_0.token_list().contains(token) <==> tokens.contains(token),
{
    let flags = decoded_flags(tokens)->Ok_0;
    lemma_decoded_flags(tokens);
    lemma_token_list(flags, 15);
    assert forall|token: Seq<char>| flags.token_list().contains(token) <==> tokens.contains(
        token,
    ) by {
        if flags.token_list().contains(token) {
            let c = choose|c: Capability|
                flags.has(c) && c.index() < 15 && #[trigger] c.token() == token;
            let i = choose|i: int|
                0 <= i < tokens.len() && Capability::of_token(#[trigger] tokens[i]) == Some(c);
            c.lemma_token();
            assert(tokens[i] == token);
        }
        if tokens.contains(token) {
            let i = choose|i: int| 0 <= i < tokens.len() && tokens[i] == token;
            assert(Capability::of_token(tokens[i]) is Some);
            let c = Capability::of_token(tokens[i])->Some_0;
            c.lemma_token();
            c.lemma_index();
            assert(flags.has(c) && c.index() < 15 && c.token() == token);
        }
    }
}

/// A list in which one token names no capability, and every other names one, fails to
/// decode with that very token.
pub proof fn lemma_unknown_token(tokens: Seq<Seq<char>>, at: int)
    requires
        0 <= at < tokens.len(),
        Capability::of_token(tokens[at]) is None,
        forall|j: int| 0 <= j < tokens.len() && j != at ==> Capability::of_token(tokens[j]) is Some,
    ensures
        decoded_flags(tokens) == Err::<CharacteristicFlags, Seq<char>>(tokens[at]),
{
    lemma_decoded_flags(tokens);
    match decoded_flags(tokens) {
        Ok(_) => {
            assert(Capability::of_token(tokens[at]) is Some);
        },
        Err(bad) => {
            let i = choose|i: int|
                {
                    &&& 0 <= i < tokens.len()
                    &&& #[trigger] tokens[i] == bad
                    &&& Capability::of_token(bad) is None
                    &&& forall|j: int|
                        0 <= j < i ==> Capability::of_token(#[trigger] tokens[j]) is Some
                };
            assert(i == at);
        },
    }
}

} // verus!
