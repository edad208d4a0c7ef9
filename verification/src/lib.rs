//! Running a command inside a namespace of its own.
//!
//! A container is described by a [`config::ContainConfig`]: the schemes that the contained
//! command reaches directly, the schemes that are served to it through a filter, and the
//! paths that the filter lets through.

pub mod config;
pub mod contain_thread;
pub mod error;
pub mod handler;
pub mod laws;
pub mod lists;
pub mod ns_ffi;
pub mod runner;
pub mod setup;
pub mod text;
