//! The decision core of a command-line client for a repository hosting service.
//!
//! Everything here works on plain values: the program around it performs the
//! transfers and the filesystem work and reports back what happened.

pub mod batch;
pub mod dispatch;
pub mod download;
pub mod enumerate;
pub mod error;
pub mod path;
pub mod repo;
pub mod report;
pub mod token;
pub mod upload;
