//! Brightness control for external displays driven over DDC/CI or the Apple
//! HID vendor protocol: device table, protocol arithmetic, the shared device
//! registry, the enumeration probe, the control state machine and the hotplug
//! decision logic.

pub mod apple_hid;
pub mod backend;
pub mod config;
pub mod controller;
pub mod devices;
pub mod enumeration;
pub mod error;
pub mod hid_display;
pub mod hotplug;
pub mod manager;
pub mod monitor;
pub mod permissions;
pub mod protocols;
pub mod randr;
pub mod text;
