//! The error taxonomy: resolution errors abort a whole batch before any
//! download starts, while fetch and upload errors stay scoped to one item
//! and only keep the batch from being marked ready.

use vstd::prelude::*;

verus! {

/// A failure while turning a schema or region tree into a download list.
/// Any of these aborts the whole batch; no downloads are attempted.
#[derive(Debug)]
pub enum ResolveError {
    /// A joined URL was malformed.
    ParseUrl { url: String },
    /// Two descriptors carried the same name, which would overwrite each
    /// other's uploaded objects.
    DuplicateName { name: String },
    /// The plugin module could not be found.
    ModuleNotFound { module: String },
    /// The plugin module was found but could not be instantiated.
    Instantiation { module: String },
    /// The module lacks the one export the host calls.
    ExportMissing { export: String },
    /// The schema could not be serialized for the sandbox boundary.
    SchemaEncoding,
    /// The plugin trapped or panicked while producing its URL list.
    PluginTrap,
    /// The script strategy failed to compile or evaluate its script.
    ScriptFailed,
}

/// A failure while downloading one item. Scoped to that item alone.
#[derive(Debug)]
pub enum FetchError {
    /// The request could not be sent or the connection failed.
    Request,
    /// The server answered with a non-success status.
    Status { code: u16 },
    /// The body stream broke while being read.
    Stream,
    /// The item exceeded its deadline.
    Timeout,
}

/// A failure while uploading one item to the object store. Scoped to that
/// item alone; the open multipart upload is aborted best-effort.
#[derive(Debug)]
pub enum UploadError {
    /// The multipart upload could not be initiated; no object is created.
    CreateMultipart,
    /// One part failed to upload.
    UploadPart { part_number: usize },
    /// The final completion call failed.
    CompleteMultipart,
    /// A small object's single direct put failed.
    PutObject,
    /// The source byte stream broke mid-transfer.
    Stream,
    /// A required configuration parameter was not set.
    MissingParameter { name: String },
    /// A part size of zero can never fill a part.
    InvalidChunkSize,
    /// The stream needs more parts than the multipart protocol allows.
    TooManyParts,
}

/// What went wrong for a single item of a batch.
#[derive(Debug)]
pub enum ItemError {
    Fetch(FetchError),
    Upload(UploadError),
}

} // verus!
