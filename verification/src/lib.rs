//! Control plane of a small platform-as-a-service.
//!
//! An application is declared by name, image source and wanted runtime
//! configuration. The [`domain`] module holds the model and the
//! reconciliation engine that converges the running instances toward that
//! declaration; [`infra`] holds the rules the two container backends apply to
//! what their daemons report; [`config`] holds the process configuration.

pub mod config;
pub mod domain;
pub mod infra;
