//! Verified core of a serial-port bridge.
//!
//! The crate covers the two stateful pieces of the bridge: the connection
//! handle with its liveness flag and the background-loop decision logic
//! (`sp`), and the receive accumulator with its on-demand formatter
//! (`manage`). Device I/O, channels and threads live with the caller; the
//! functions here decide what each loop iteration does and how received
//! bytes are stored, counted and rendered.

pub mod codec;
pub mod errors;
pub mod hex;
pub mod manage;
pub mod sp;
pub mod sp_list;
