//! The library's error taxonomy.
//!
//! Setup-time problems propagate as hard failures; per-file problems are
//! isolated by the callers and never appear here as errors of a whole
//! batch.

use vstd::prelude::*;

verus! {

/// What can go wrong before or while a scan or a cleaning runs.
#[derive(Debug)]
pub enum Error {
    /// The configuration cannot be used: a bad root, a bad pattern, or
    /// an out-of-range setting.
    ConfigurationInvalid(String),
    /// The scan root does not exist or yields no files.
    SourceUnavailable,
    /// A file could not be processed.
    FileProcessing(String),
    /// An execution was asked for without a valid plan, or with a plan
    /// that does not fit the statuses reported for it.
    PlanInvalid(String),
}

impl Error {
    /// A short fixed description of the error's kind.
    pub fn kind_message(&self) -> (r: &'static str)
        ensures
            self is ConfigurationInvalid ==> r@ == "configuration invalid"@,
            self is SourceUnavailable ==> r@ == "source unavailable"@,
            self is FileProcessing ==> r@ == "file processing failed"@,
            self is PlanInvalid ==> r@ == "plan invalid"@,
    {
        match self {
            Error::ConfigurationInvalid(_) => "configuration invalid",
            Error::SourceUnavailable => "source unavailable",
            Error::FileProcessing(_) => "file processing failed",
            Error::PlanInvalid(_) => "plan invalid",
        }
    }
}

} // verus!
