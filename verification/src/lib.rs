//! Core engine of a game launcher: it resolves a version's inheritance
//! chain, decides which libraries apply to the running operating system,
//! builds the launch classpath, plans native-library extraction, asset
//! provisioning and isolated Java-runtime installs, and composes the final
//! launch command line.
//!
//! All decision logic lives here and is verified; file, network and process
//! work is done by a thin unverified shell that feeds plain values in and
//! carries the decisions out.

pub mod assets;
pub mod classpath;
pub mod errors;
pub mod java;
pub mod launcher;
pub mod library_manager;
pub mod loader;
pub mod models;
pub mod natives;
pub mod resolver;
pub mod rules;
pub mod strutil;
pub mod versions;
pub mod ziparc;
