//! Decoder for the programmed fuse maps of GAL20V8 and GAL22V10 devices.
//!
//! The decoder turns a raw fuse bit vector (`true` = fuse intact, `false` =
//! fuse blown) into product-of-sums boolean equations, one per enabled
//! output macrocell. Device-specific knowledge lives entirely in a
//! [`profile::DeviceProfile`] value; the synthesis algorithm itself is
//! shared by every supported device.

pub mod profile;
pub mod render;
pub mod rows;
pub mod synth;
pub mod types;
