//! Verified core of an oscillator workstation: the oscillator parameter
//! model, the play/pause transport with its monotonic sample clock, the
//! per-frame control surface that routes input into both, and a versioned
//! byte codec for persisted settings.
//!
//! All parameters are plain fixed-point integers (millihertz, millionths of
//! full scale, millionths of a cycle), so every rule about them is stated and
//! checked exactly. A host shell converts to whatever display units it likes.

pub mod oscillator;
pub mod persist;
pub mod settings;
pub mod surface;
pub mod transport;
