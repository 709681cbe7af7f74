//! Client side of the USB2SNES device-control protocol, written as a
//! sans-I/O engine: the library builds every outgoing frame and digests every
//! incoming one, while the caller owns the transport.

pub mod hex;
pub mod request;
pub mod files;
pub mod transfer;
pub mod session;

pub use files::{FileInfo, FileType};
pub use session::Connection;
