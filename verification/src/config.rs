//! Fixed parameters of the radio link: LoRa module configuration values,
//! serial timing, and the bounds of the shared telemetry/log buffers.

use vstd::prelude::*;

verus! {

// LoRa module configuration
pub const LORA_ADDRESS: u32 = 1;

pub const LORA_NETWORK_ID: u32 = 6;

pub const LORA_BAND: u32 = 915_000_000;

pub const LORA_SPREADING_FACTOR: u32 = 9;

pub const LORA_BANDWIDTH: u32 = 7;

pub const LORA_CODING_RATE: u32 = 1;

pub const LORA_PREAMBLE: u32 = 4;

// Serial port configuration
pub const BAUD_RATE: u32 = 115_200;

pub const SERIAL_TIMEOUT_MS: u64 = 100;

pub const INTER_COMMAND_DELAY_MS: u64 = 100;

// Shared buffer bounds
pub const MAX_POINTS: usize = 500;

pub const MAX_LOG_MESSAGES: usize = 100;

/// Largest payload, in bytes, the radio module accepts in one send.
pub const MAX_PAYLOAD_BYTES: usize = 240;

} // verus!
