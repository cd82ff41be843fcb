//! Verified core of an AMD GPU tuning tool: a text profile is parsed into
//! [`settings::DeviceSettings`], the device's control directories are
//! resolved, and the settings are turned into an ordered list of writes to
//! the kernel's control files.
//!
//! The library decides and computes; it performs no I/O. A driver asks the
//! state machines in [`resolve`] and [`session`] what to do next, does it,
//! and reports back what happened.
//!
//! - [`decimal`] and [`text`]: numbers, lines and white space as bytes.
//! - [`settings`]: the settings and the errors of the profile format.
//! - [`profile`]: reading a profile; [`render`]: writing one.
//! - [`resolve`]: finding a device's directories.
//! - [`plan`]: the ordered steps that apply settings, reset a device or show
//!   its state; [`session`]: the run of a plan; [`info`]: how a file is
//!   shown; [`message`]: what the user is told.
//! - [`laws`] and [`round_trip`]: what is proved of all plans, all runs and
//!   all profiles.

pub mod decimal;
pub mod text;
pub mod settings;
pub mod profile;
pub mod render;
pub mod resolve;
pub mod plan;
pub mod session;
pub mod info;
pub mod message;
pub mod laws;
pub mod round_trip;
