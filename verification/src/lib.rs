//! Verified core of an asynchronous SMB2/SMB3 client.
//!
//! The crate owns every decision of the client: request lifecycle and credit
//! accounting, object identity, recovery, the protection and framing rules of
//! the wire, and the rules by which resources are opened. It performs no I/O:
//! sockets, timers and tasks live in the application around it.

pub mod clock;
pub mod fscc;
pub mod header;
pub mod identity;
pub mod little_endian;
pub mod payload;
pub mod protocol;
pub mod resource;
pub mod runtime;
pub mod scenario;
pub mod session;
pub mod signing;
