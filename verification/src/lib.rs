//! Capture of loaded modules from a running process: locating a module in the
//! process's mapping table, snapshotting its memory, repairing the captured
//! header fields so the bytes form a self-consistent image, and computing the
//! dated output path under which the image is persisted.

pub mod bytes;
pub mod clock;
pub mod config;
pub mod dump;
pub mod error;
pub mod image;
pub mod locate;
pub mod paths;
pub mod process;
pub mod text;
