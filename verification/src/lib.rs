//! Control layer for an LTE modem that is driven by AT commands.
//!
//! The library holds the decisions and leaves the transport to its caller: an
//! operation is a function from the state of a session and the latest answer
//! of the transport to the next state, which names the transport call to make
//! next or the result of the operation.

pub mod at;
pub mod error;
pub mod modem;
pub mod session;
pub mod text;
