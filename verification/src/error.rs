//! The ways in which an operation of this library fails.

use vstd::prelude::*;
use vstd::string::StringExecFns;

verus! {

/// Why an operation failed.
#[derive(Clone, Copy, Debug, PartialEq, Eq, Structural)]
pub enum Error {
    /// The launcher lacks a name, a usable address or an installed browser.
    Validation,
    /// An entry or an icon file could not be read, written or moved.
    Io,
    /// A persisted entry is malformed.
    Parse,
    /// An icon could not be fetched.
    Network,
    /// The bytes of an icon are not an image this library takes.
    Decode,
}

impl Error {
    /// A sentence that names the failure.
    pub open spec fn message_spec(self) -> Seq<char> {
        match self {
            Error::Validation => "the launcher needs a name, an address and an installed browser"@,
            Error::Io => "a file could not be read or written"@,
            Error::Parse => "the launcher entry is malformed"@,
            Error::Network => "the icon could not be fetched"@,
            Error::Decode => "the icon is not an image that can be shown"@,
        }
    }

    /// A sentence that names the failure.
    pub fn message(&self) -> (r: String)
        ensures
            r@ == self.message_spec(),
    {
        match self {
            Error::Validation => String::from_str(
                "the launcher needs a name, an address and an installed browser",
            ),
            Error::Io => String::from_str("a file could not be read or written"),
            Error::Parse => String::from_str("the launcher entry is malformed"),
            Error::Network => String::from_str("the icon could not be fetched"),
            Error::Decode => String::from_str("the icon is not an image that can be shown"),
        }
    }
}

} // verus!
