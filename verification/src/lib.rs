//! Ground-side link layer for commanding and monitoring a remote flight
//! controller over a LoRa transceiver attached to a serial port.
//!
//! The crate covers the radio handshake state machine, the line-and-hex
//! framing protocol, the binary command/telemetry codec, a coalescing
//! command queue with emergency-stop preemption, and the periodic
//! heartbeat scheduler. Serial I/O itself lives outside the library;
//! callers feed bytes in and carry rendered lines out.

pub mod codec;
pub mod config;
pub mod init;
pub mod parser;
pub mod queue;
pub mod scheduler;
pub mod settings;
pub mod telemetry;
pub mod text;
pub mod worker;
