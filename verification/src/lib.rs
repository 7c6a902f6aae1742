//! Software inventory of a host: collection and normalisation of installed
//! applications, drivers and the operating system into one component model.
//!
//! The library decides and decodes; it runs no process and touches neither
//! registry nor file. Its caller runs the utilities of the system, walks
//! the registry and makes the native calls, and hands over what came back:
//!
//! - [`tool`] turns the run of a utility into its output or a failure;
//! - [`wide`] transcodes between UTF-8 text and native wide strings;
//! - [`version`] drives the lookup of the version embedded in a binary;
//! - [`registry`] decodes registry values and gathers uninstall entries;
//! - [`windows`] and [`macos`] derive the records of each platform;
//! - [`component`] holds the model that all of them are normalised to;
//! - [`collector`] selects the collector of the platform;
//! - [`format`] renders the inventory as text.

pub mod clock;
pub mod collector;
pub mod component;
pub mod error;
pub mod format;
pub mod json;
pub mod macos;
pub mod registry;
pub mod text;
pub mod tool;
pub mod version;
pub mod wide;
pub mod windows;
