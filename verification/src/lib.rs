//! Bluetooth links for Zenoh: over GATT characteristics, and over L2CAP channels
//! that are secured by TLS.
//!
//! The library decides and computes. Where the radio, files or time are
//! involved, it says what to do next and takes in what that came to.
pub mod address;
pub mod auth;
pub mod device;
pub mod gatt;
pub mod l2cap;
pub mod listeners;
pub mod locator;
pub mod params;
pub mod text;
