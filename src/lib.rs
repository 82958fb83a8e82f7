//! Verified core of a Wayland clipboard worker: MIME negotiation, payload
//! normalization, seat tracking, the selection and drag-and-drop state
//! machines, and the steps of non-blocking pipe transfers.
//!
//! The worker's event loop performs the protocol requests and pipe I/O
//! that these state machines decide on, and feeds their outcomes back.
pub mod client;
pub mod data;
pub mod dnd;
pub mod error;
pub mod mime;
pub mod seat;
pub mod selection;
pub mod text;
pub mod transfer;
pub mod worker;

pub use data::ClipboardData;
pub use error::{ClipboardError, Result};
pub use mime::{normalize_to_lf, MimeType};
pub use seat::Target;
pub use worker::{Command, Reply, Worker};
