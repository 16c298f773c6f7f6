//! A single-session command bridge: newline-delimited JSON commands drive one
//! remote shell / file-transfer connection, one JSON response per command.
//!
//! The library holds everything that can be stated and proved: the command
//! and response types, the JSON codec, the dispatcher state machine, the
//! authentication choice, and the chunked-transfer model. The surrounding
//! binary performs the network and disk I/O and feeds each outcome back in.

pub mod auth;
pub mod codec;
pub mod dispatch;
pub mod json;
pub mod protocol;
pub mod text;
pub mod transfer;
