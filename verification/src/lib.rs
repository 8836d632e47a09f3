//! A verified Minecraft client core: wire primitives, connection rules and the
//! state machines that turn server packets into a bot's view of the world.
//!
//! Everything here is plain computation over plain values. Sockets, timers and
//! floating-point motion live outside the library; a floating-point number
//! appears here as its bits.

pub mod casts;
pub mod error;
pub mod float_bits;
pub mod laws;
pub mod minecraft;
pub mod network;
pub mod protocol;
pub mod sharing;
pub mod sorted_map;
pub mod text_build;
