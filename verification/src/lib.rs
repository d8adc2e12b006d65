use vstd::prelude::*;
use vstd::string::StringExecFns;

pub mod cffi;
pub mod dist_info;
pub mod exclude;
pub mod fsio;
pub mod hashing;
pub mod layout;
pub mod metadata;
pub mod path_writer;
pub mod record;
pub mod sdist;
pub mod strutil;
pub mod wheel;
pub mod writer;

verus! {

/// Errors raised by the archive backends and the layout assembly steps.
///
/// Every fatal error carries enough path or message context to diagnose the
/// failure without re-running the build.
#[derive(Debug)]
pub enum ArchiveError {
    /// An open, read, write or create-directory failure, with the offending path.
    Io { path: String, message: String },
    /// A container-format failure reported by the archive library.
    Format { message: String },
    /// A layout-validation failure (bad data subdirectory, missing file name).
    Layout { message: String },
}

impl ArchiveError {
    /// A human-readable description of the error.
    pub fn describe(&self) -> (r: String)
        ensures
            self matches ArchiveError::Io { path, message } ==> r@ == path@ + ": "@ + message@,
            self matches ArchiveError::Format { message } ==> r@ == message@,
            self matches ArchiveError::Layout { message } ==> r@ == message@,
    {
        match self {
            ArchiveError::Io { path, message } => {
                let mut s = path.clone();
                s.append(": ");
                s.append(message.as_str());
                s
            },
            ArchiveError::Format { message } => message.clone(),
            ArchiveError::Layout { message } => message.clone(),
        }
    }
}

} // verus!
