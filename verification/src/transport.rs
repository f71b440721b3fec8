//! The kind of radio scan a discovery session asks for.

use vstd::prelude::*;

verus! {

/// The type of transport to use for a scan.
#[derive(Copy, Clone, Debug, PartialEq, Eq, Structural)]
pub enum Transport {
    /// Interleaved scan over both low-energy and classic radio.
    Auto,
    /// Classic (BR/EDR) inquiry only.
    BrEdr,
    /// Low-energy scan only.
    Le,
}

impl Transport {
    /// The word by which the daemon knows this transport.
    pub open spec fn word(self) -> Seq<char> {
        match self {
            Transport::Auto => "auto"@,
            Transport::BrEdr => "bredr"@,
            Transport::Le => "le"@,
        }
    }

    /// Returns the word by which the daemon knows this transport.
    pub fn as_str(&self) -> (s: &'static str)
        ensures
            s@ == self.word(),
    {
        match self {
            Transport::Auto => "auto",
            Transport::BrEdr => "bredr",
            Transport::Le => "le",
        }
    }
}

} // verus!
