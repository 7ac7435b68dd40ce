//! A Telnet client core: an incremental decoder for the byte stream of a
//! Telnet peer, and the decisions of a session that logs in and runs
//! commands. The connection itself belongs to the caller.

pub mod buffer;
pub mod builder;
pub mod codec;
pub mod error;
pub mod framing;
pub mod runs;
pub mod session;
pub mod text;
pub mod wire;

pub use crate::builder::TelnetBuilder;
pub use crate::session::Telnet;
