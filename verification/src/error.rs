//! Errors reported by the background worker.
//!
//! The ECAppLog protocol is one-directional: the server never writes a byte back, so nothing here
//! can be an error *returned* to a `log` call. These are reported instead, through the callback
//! that the application installs.

use serde_json::Error as JsonError;
use vstd::prelude::*;

verus! {

/// The standard library's I/O error, carried through unopened.
#[verifier::external_type_specification]
#[verifier::external_body]
pub struct ExIoError(std::io::Error);

/// The standard library's classification of I/O errors.
#[verifier::external_type_specification]
pub struct ExIoErrorKind(std::io::ErrorKind);

/// The kind of an I/O error.
pub uninterp spec fn io_error_kind(error: std::io::Error) -> std::io::ErrorKind;

/// The text that an I/O error shows.
pub uninterp spec fn io_error_message(error: std::io::Error) -> Seq<char>;

/// `std::io::Error::new` with a text: an error of that kind that shows that text.
#[verifier::external_body]
pub(crate) fn io_error(kind: std::io::ErrorKind, message: &str) -> (error: std::io::Error)
    ensures
        io_error_kind(error) == kind,
        io_error_message(error) == message@,
{
    std::io::Error::new(kind, message)
}

/// Something the background worker could not do.
#[allow(inconsistent_fields)]
#[derive(Debug)]
#[non_exhaustive]
pub enum Error {
    /// The configured address could not be resolved.
    Resolve {
        /// The address as configured.
        address: String,
        /// The underlying resolver error.
        source: std::io::Error,
    },
    /// No connection could be established. The worker retries after the reconnect delay.
    Connect {
        /// The address as configured.
        address: String,
        /// The underlying connect error.
        source: std::io::Error,
    },
    /// A frame could not be written. The connection is dropped and re-established, and the entry
    /// that failed is put back at the head of the queue rather than lost.
    Write {
        /// The underlying write error.
        source: std::io::Error,
    },
    /// An entry could not be serialised to JSON, and was discarded.
    Serialize {
        /// The underlying serialisation error.
        source: JsonError,
    },
    /// An entry serialised to more than the server's 16 MiB frame limit, and was discarded.
    ///
    /// Sending it would have made the server close the connection, taking every entry queued
    /// behind it down as well, so dropping the one oversized entry is the lesser loss.
    PayloadTooLarge {
        /// The size the entry serialised to.
        size: usize,
        /// The server's limit.
        limit: usize,
    },
    /// The queue was full, so the oldest entry was discarded to make room for a new one.
    ///
    /// Almost always means the GUI is not running, or is not keeping up. The running total is also
    /// available from [`Client::dropped_count`](crate::Client::dropped_count).
    QueueFull {
        /// The configured queue capacity.
        capacity: usize,
        /// How many entries this client has dropped in total.
        total: u64,
    },
}

}
