//! A minimal WebSocket endpoint library: the connection state machine and the
//! diagnostic log lines it emits, stated and proved. The network loop that
//! feeds frames into the machine lives outside the library.

pub mod connection;
pub mod logfmt;
pub mod session;
