//! Errors reported to the application.
use vstd::prelude::*;

verus! {

/// The error type for clipboard operations.
#[derive(Debug)]
pub enum ClipboardError {
    /// No events have been received on any seat yet.
    NoSeat,
    /// The client doesn't have keyboard focus.
    NoFocus,
    /// The selection is empty.
    Empty,
    /// The requested MIME type is not available.
    MimeNotAvailable(String),
    /// No compatible MIME type among the offered ones.
    NoCompatibleMime,
    /// The data is not valid UTF-8.
    InvalidUtf8,
    /// The compositor does not support the primary selection.
    PrimarySelectionUnsupported,
    /// The compositor does not support the data device.
    DataDeviceUnsupported,
    /// The worker thread has terminated.
    WorkerDead,
    /// An I/O error, with its description.
    Io(String),
}

/// A `Result` whose error is a `ClipboardError`.
pub type Result<T> = core::result::Result<T, ClipboardError>;

} // verus!
