//! The logic of sharing cameras between several users.
//!
//! A camera is opened by its number or by its unique id ([`device`]), once for all who ask for it
//! ([`opening`], [`registry`]). Its users and its worker meet in one session ([`session`],
//! [`worker`]): the worker captures and decodes frames ([`decode`]) and publishes the latest one
//! ([`frame`]). Formats and controls are in [`format`] and [`control`].
//!
//! Nothing here talks to a device or starts a thread. Where that is called for, a function returns
//! what to do, and another one takes in what came of it.

pub mod control;
pub mod decode;
pub mod device;
pub mod error;
pub mod format;
pub mod frame;
pub mod opening;
pub mod registry;
pub mod session;
pub mod text;
pub mod worker;

pub use device::query;
pub use opening::check_can_use;
