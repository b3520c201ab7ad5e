//! Failures of a transfer.
use vstd::prelude::*;

verus! {

/// Why a transfer stopped. A header without a separator is not among them:
/// it is reported and skipped, and the request goes on.
#[derive(Debug)]
pub enum TransferError {
    /// A caller-supplied header whose name or value the HTTP stack cannot send.
    InvalidHeader { name: String },
    /// The final response was neither a success nor a followable redirect.
    StatusError { code: u16 },
    /// More redirects than the bound allows.
    TooManyRedirects,
    /// Connection, TLS or protocol failure at some hop or range request.
    NetworkError { detail: String },
    /// The destination could not be created or written.
    IoError { path: String, detail: String },
}

} // verus!
