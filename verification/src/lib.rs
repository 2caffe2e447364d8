//! A read-only overlay that serves transformed versions of selected files.
//!
//! The crate holds the projection engine: it decides which files are
//! projected, keeps the one-to-one mapping between source paths and their
//! cached, transformed counterparts, and plans every step a filesystem
//! operation has to take. Reading directories, running the transformation and
//! talking to the kernel are left to the caller.

pub mod text;
pub mod path;
pub mod media;
pub mod config;
pub mod libc_bridge;
pub mod mapping;
pub mod manager;
pub mod projfs;
pub mod fsop;
pub mod cache;
