//! The backend of an application launcher: it discovers the applications
//! installed on macOS, Linux or Windows, builds the catalog to display, and
//! remembers how each application is launched.
//!
//! The library decides and computes; it performs no input or output. A
//! discovery pass is a state machine: [`init`] starts it, and
//! [`discovery::Discovery::step`] takes it from one action of the caller to
//! the next. [`on_select`] finds the launch for a selected name.

pub mod catalog;
pub mod config;
pub mod discovery;
pub mod linux;
pub mod macos;
pub mod registry;
pub mod text;
pub mod windows;

pub use crate::discovery::{filter, init};
pub use crate::registry::on_select;
