//! Firmware core for an Apple-style keyboard adapter: debounces raw matrix
//! scans, resolves scan codes against a layered key map, reconciles the
//! chronological key-press history, and folds the result into USB HID
//! keyboard and consumer-control reports.
//!
//! Hardware access (GPIO strobing, USB transport, serial lines) lives outside
//! this crate; every function here is a synchronous transformation over plain
//! values, verified against the contracts stated on it.

pub mod debounce;
pub mod driver;
pub mod errors;
pub mod input;
pub mod kbmap;
pub mod oracle;
pub mod scan;
pub mod state;
pub mod hex;
pub mod host;
