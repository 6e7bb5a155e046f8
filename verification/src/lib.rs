//! Verified core of a GPU point simulation: how the points are split into
//! slices that fit the device limits, how the shared index buffer is laid
//! out, how pointer and touch input is tracked and packed for the
//! simulation shader, and how the window surface is (re)configured.

pub mod layout;
pub mod slicing;
pub mod input;
pub mod surface;
pub mod config;
pub mod ping_pong;
