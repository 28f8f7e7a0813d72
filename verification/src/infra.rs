//! Rules of the container backends, on plain values.

pub mod docker;
pub mod kubernetes;
pub mod labels;
pub mod names;
pub mod report;
pub mod text;
pub mod web;
