//! Control-channel protocol engine of a small file-transfer server.
//!
//! The crate covers the pure core of the protocol: parsing one command
//! line into a typed command, encoding a status reply into the exact wire
//! bytes, formatting directory-listing records, and the per-session state
//! machine that dispatches commands and owns the single data channel.
//! All I/O (sockets, filesystem metadata) stays outside; callers hand the
//! library plain values and carry its answers back to the wire.

pub mod command;
pub mod listing;
pub mod numeric;
pub mod result_code;
pub mod session;
pub mod wire;
