//! A serial-terminal core: a registry of port connections supervised by
//! background workers, a worker state machine that opens, reads and reopens
//! a device, a stateful interpreter of terminal colour codes, a bounded
//! history of received text, and the state of the views that show it.

pub mod colors;
pub mod ansi_formatter;
pub mod worker;
pub mod types;
pub mod service;
pub mod history;
pub mod serial_view;
pub mod naming;
