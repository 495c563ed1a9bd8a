//! The errors a decode can end in.

use vstd::prelude::*;

verus! {

/// A structural problem of the container.
#[derive(Clone, Copy, Debug, PartialEq, Eq, Structural)]
pub enum FormatError {
    /// The stream does not start with the magic header.
    BadMagic,
    /// Fewer bytes are left than a field or a length prefix asks for.
    Truncated,
    /// The metadata blob does not unwrap to a well-formed text record.
    InvalidMetadata,
}

/// A failure of the block-cipher unwrap.
#[derive(Clone, Copy, Debug, PartialEq, Eq, Structural)]
pub enum CryptoError {
    /// The ciphertext is not a whole number of 16-byte blocks.
    InvalidLength,
    /// The plaintext does not end in a valid padding pattern.
    InvalidPadding,
}

/// Either family of error.
#[derive(Clone, Copy, Debug, PartialEq, Eq, Structural)]
pub enum ErrorKind {
    Format(FormatError),
    Crypto(CryptoError),
}

/// The section of the container in which a decode failed.
#[derive(Clone, Copy, Debug, PartialEq, Eq, Structural)]
pub enum Stage {
    Header,
    Key,
    Metadata,
    Image,
}

/// What a failed decode reports: where it failed, and how.
#[derive(Clone, Copy, Debug, PartialEq, Eq, Structural)]
pub struct DecodeError {
    pub stage: Stage,
    pub kind: ErrorKind,
}

impl DecodeError {
    /// A one-line description for a user.
    pub fn message(&self) -> (s: String)
        ensures
            s@ == error_text(*self),
    {
        let place = match self.stage {
            Stage::Header => "header: ",
            Stage::Key => "key section: ",
            Stage::Metadata => "metadata section: ",
            Stage::Image => "image section: ",
        };
        let what = match self.kind {
            ErrorKind::Format(FormatError::BadMagic) => "bad magic",
            ErrorKind::Format(FormatError::Truncated) => "truncated",
            ErrorKind::Format(FormatError::InvalidMetadata) => "invalid metadata",
            ErrorKind::Crypto(CryptoError::InvalidLength) => "invalid length",
            ErrorKind::Crypto(CryptoError::InvalidPadding) => "invalid padding",
        };
        let mut s = place.to_string();
        s.append(what);
        s
    }
}

/// The text of [`DecodeError::message`].
pub open spec fn error_text(e: DecodeError) -> Seq<char> {
    let place = match e.stage {
        Stage::Header => "header: "@,
        Stage::Key => "key section: "@,
        Stage::Metadata => "metadata section: "@,
        Stage::Image => "image section: "@,
    };
    let what = match e.kind {
        ErrorKind::Format(FormatError::BadMagic) => "bad magic"@,
        ErrorKind::Format(FormatError::Truncated) => "truncated"@,
        ErrorKind::Format(FormatError::InvalidMetadata) => "invalid metadata"@,
        ErrorKind::Crypto(CryptoError::InvalidLength) => "invalid length"@,
        ErrorKind::Crypto(CryptoError::InvalidPadding) => "invalid padding"@,
    };
    place + what
}

} // verus!
