use vstd::prelude::*;
use crate::text::{concat, decimal, decimal_text};

verus! {

/// Errors that can occur when reading, writing, or replaying a WAL.
#[derive(Debug)]
pub enum WalError {
    /// A generic I/O error propagated from the operating system.
    Io(std::io::Error),
    /// The payload of a WAL entry is structurally invalid.
    InvalidPayload(String),
    /// The WAL ended before an entry could be fully read.
    UnexpectedEof,
    /// An entry failed its checksum or length validation.
    CorruptEntry { position: u64, reason: String },
    /// The WAL header is missing or malformed.
    InvalidHeader { reason: String },
    /// The WAL version is not supported by this implementation.
    UnsupportedVersion { found: u8, expected: u8 },
    /// The WAL path does not have a parent directory.
    PathMissing,
}

#[verifier::external_type_specification]
#[verifier::external_body]
pub struct ExIoError(std::io::Error);

/// `io::Error::kind`, tested against `ErrorKind::UnexpectedEof`. The kind
/// lives inside the error value, which Verus cannot see, so nothing is
/// stated of the result.
#[verifier::external_body]
fn is_unexpected_eof(e: &std::io::Error) -> bool {
    e.kind() == std::io::ErrorKind::UnexpectedEof
}

/// `io::Error`'s `Display`, as text; what it says comes from the operating
/// system and is not stated.
#[verifier::external_body]
fn io_error_text(e: &std::io::Error) -> String {
    e.to_string()
}

/// The text of an error, except an I/O error, whose text comes from the
/// operating system.
pub open spec fn error_text(e: &WalError) -> Option<Seq<char>> {
    match e {
        WalError::Io(_) => None,
        WalError::InvalidPayload(m) => Some("invalid WAL payload: "@ + m@),
        WalError::UnexpectedEof => Some("unexpected end of WAL file"@),
        WalError::CorruptEntry { position, reason } => Some(
            "corrupt WAL entry at offset "@ + decimal(*position as nat) + ": "@ + reason@,
        ),
        WalError::InvalidHeader { reason } => Some("invalid WAL header: "@ + reason@),
        WalError::UnsupportedVersion { found, expected } => Some(
            "unsupported WAL version "@ + decimal(*found as nat) + " (expected "@ + decimal(
                *expected as nat,
            ) + ")"@,
        ),
        WalError::PathMissing => Some("WAL path has no parent directory"@),
    }
}

impl WalError {
    /// The error of an I/O failure: an unexpected end of file becomes
    /// `UnexpectedEof`, any other failure is kept as `Io`.
    pub fn from_io(e: std::io::Error) -> (r: Self)
        ensures
            r is UnexpectedEof || r is Io,
            r matches WalError::Io(x) ==> x == e,
    {
        if is_unexpected_eof(&e) {
            WalError::UnexpectedEof
        } else {
            WalError::Io(e)
        }
    }

    /// The error as a line of text.
    pub fn describe(&self) -> (r: String)
        ensures
            error_text(self) is Some ==> r@ == error_text(self)->Some_0,
            self is Io ==> r@.len() >= 11 && r@.subrange(0, 11) == "I/O error: "@,
    {
        match self {
            WalError::Io(e) => {
                let t = io_error_text(e);
                let r = concat("I/O error: ", t.as_str());
                proof {
                    reveal_strlit("I/O error: ");
                }
                assert(r@.subrange(0, 11) =~= "I/O error: "@);
                r
            },
            WalError::InvalidPayload(m) => concat("invalid WAL payload: ", m.as_str()),
            WalError::UnexpectedEof => String::from_str("unexpected end of WAL file"),
            WalError::CorruptEntry { position, reason } => {
                let p = decimal_text(*position);
                let t = concat("corrupt WAL entry at offset ", p.as_str());
                let t = concat(t.as_str(), ": ");
                concat(t.as_str(), reason.as_str())
            },
            WalError::InvalidHeader { reason } => concat("invalid WAL header: ", reason.as_str()),
            WalError::UnsupportedVersion { found, expected } => {
                let f = decimal_text(*found as u64);
                let e = decimal_text(*expected as u64);
                let t = concat("unsupported WAL version ", f.as_str());
                let t = concat(t.as_str(), " (expected ");
                let t = concat(t.as_str(), e.as_str());
                concat(t.as_str(), ")")
            },
            WalError::PathMissing => String::from_str("WAL path has no parent directory"),
        }
    }
}

} // verus!
