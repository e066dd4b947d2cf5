//! Add frames to serial connections. Useful for embedded devices.
//!
//! A frame travels as one sentinel byte, a two-byte little-endian length and
//! the payload. The main type of interest is [`FramedConnection`], which
//! takes ownership of a [`Transport`] and allows sending and receiving
//! complete frames, one in each direction at a time, a byte per transport
//! call and without ever blocking.

pub mod connection;
pub mod error;
pub mod laws;
pub mod receiver;
pub mod sender;
pub mod transport;
pub mod wire;

pub use crate::connection::{FramedConnection, TickProgress};
pub use crate::error::{Error, ErrorKind, StdError};
pub use crate::receiver::Receiver;
pub use crate::sender::Sender;
pub use crate::transport::{Progress, RecvOutcome, SendOutcome, Transport};
pub use crate::wire::{MAX_FRAME_LEN, SENTINEL};
