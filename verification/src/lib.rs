//! Publish a battery level to UPower - and so to the desktop - through a
//! virtual HID device.
//!
//! UPower does not accept battery devices over D-Bus; it reports what the
//! kernel exposes under `/sys/class/power_supply`. So a daemon that knows the
//! charge of some wireless peripheral, but has no kernel driver to say so,
//! creates a virtual HID device through `/dev/uhid` whose report descriptor
//! declares a battery. `hid-input` registers the power supply, UPower picks it
//! up like any other peripheral battery, and the desktop's power applet lists
//! the device.
//!
//! This crate holds what such a daemon has to get right: the wire format, the
//! report descriptors, the names, and when to say what. It performs no I/O of
//! its own; see [`Battery`] for how a caller drives it.
//!
//! The crate exists because the kernel and UPower each have rules that are only
//! discovered by breaking them; see [`Kind`] for the descriptor ones and
//! [`Battery`] for the timing ones.

pub mod battery;
pub mod behaviour;
pub mod bytes;
pub mod clock;
pub mod descriptor;
pub mod error;
pub mod event;
pub mod handle;
pub mod hid;
pub mod schedule;
pub mod sysfs;
pub mod text;

pub use battery::{Battery, CreateError, Identity};
pub use descriptor::Kind;
pub use handle::DEV_UHID;
pub use sysfs::find_power_supply;
