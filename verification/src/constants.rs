//! Fixed parameters of the controller: default hardware settings, the
//! well-known ports of the discovery protocol, and transport limits.

use vstd::prelude::*;

verus! {

pub const LED_COUNT: i32 = 30;
pub const LED_PIN: i32 = 21;
pub const LED_FREQ_HZ: u32 = 800000;
pub const LED_DMA: i32 = 10;
pub const LED_BRIGHTNESS: u8 = 255;
pub const LED_INVERT: i32 = 0;
pub const LED_RENDER_WAIT: u64 = 0;
pub const LED_WSHIFT: u8 = 0;
pub const LED_RSHIFT: u8 = 0;
pub const LED_GSHIFT: u8 = 0;
pub const LED_BSHIFT: u8 = 0;

pub const CONTROLLER_NAME: &'static str = "Test Controller";
pub const MAIN_PORT: u16 = 8080;
pub const SETUP_PORT: u16 = 37322;
pub const LED_PER_ROW: i64 = 30;
pub const NUM_ROW: i64 = 1;
pub const BYTES_PER_LED: i64 = 3;

pub const UDP_MAX_PACKET_SIZE: u32 = 65507;

/// Inbound silence after which the controller re-announces itself, in
/// milliseconds.
pub const TIMEOUT_THRESHOLD_MS: u64 = 30000;

/// Interval of one poll tick of the main loop, in milliseconds.
pub const POLL_INTERVAL_MS: u64 = 5;

} // verus!
