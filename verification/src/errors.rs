//! Structured failure taxonomy of the engine. Callers match on the kind of
//! failure and on the operation and path it carries, instead of parsing text.

use vstd::prelude::*;

verus! {

/// The individual I/O step that failed.
#[derive(Debug, Clone, Copy, PartialEq, Eq, Structural)]
pub enum IoStep {
    /// Creating a directory, locally or remotely.
    CreateDirectory,
    /// Enumerating a local directory.
    ReadDirectory,
    /// Reading a local file's metadata.
    ReadMetadata,
    /// Sending a local file to the remote store.
    Upload,
    /// Fetching a remote file to local storage.
    Download,
    /// Listing the filenames of a remote directory.
    List,
    /// Asking the remote store for a file's last-modified time.
    LastModified,
    /// Probing connectivity to the remote store.
    Connect,
}

/// A failure surfaced by a synchronization call.
#[derive(Debug, Clone)]
pub enum SyncError {
    /// An operation needing the remote store ran before a connection was
    /// configured.
    NotConfigured,
    /// The supplied connection parameters could not produce a handle; the
    /// previously held handle, if any, is left untouched.
    InvalidConfig { reason: String },
    /// A local filesystem step failed; the call stops at once and completed
    /// transfers stay applied.
    LocalIo { step: IoStep, path: String },
    /// A remote store step failed; the call stops at once and completed
    /// transfers stay applied.
    RemoteIo { step: IoStep, path: String },
}

} // verus!
