//! Duplicate-file cleaning engine for an application cache directory.
//!
//! The library is the decision core of the cleaner: it classifies file
//! names, detects duplicate groups by name pattern and by content digest,
//! partitions groups by directory, builds a previewable delete plan that
//! honours a minimum-size floor, and accounts for what an execution of
//! that plan actually removed. All filesystem work (walking a tree,
//! reading bytes, deleting files) is left to the caller, which hands the
//! library plain values and takes plain values back.

pub mod arith;
pub mod bytes;
pub mod cleaner;
pub mod config;
pub mod detect;
pub mod errors;
pub mod format;
pub mod group;
pub mod hasher;
pub mod pattern;
pub mod progress;
pub mod records;
pub mod scanner;
