//! Host-side transport library for the Flipper Zero's RPC link.
//!
//! The wire protocol frames every message as an unsigned LEB128 length
//! prefix followed by that many body bytes, over either a serial/UART link
//! or a BLE GATT connection.  This crate holds the verified core: the
//! framing codec, the serial handshake state machine, and the connection
//! state machines for both transports.  The asynchronous I/O that feeds
//! these state machines lives outside the library.

pub mod codec;
pub mod consts;
pub mod error;
pub mod transport;
