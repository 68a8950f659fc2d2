//! What the file store asks of the file system, and what it takes back.

use crate::models::ident::PromptId;
use crate::models::prompt::{Prompt, PromptView};
use crate::storage::{ErrorKind, Operation, StorageError, StorageErrorView};
use vstd::prelude::*;

verus! {

/// An entry of a directory, as a scan reports it.
#[derive(Debug, Clone, PartialEq, Eq)]
pub struct DirEntry {
    /// The entry's name within the directory.
    pub file_name: String,
    /// Whether the entry is a regular file.
    pub is_file: bool,
}

/// What a directory entry holds, as mathematical values.
pub struct DirEntryView {
    pub file_name: Seq<char>,
    pub is_file: bool,
}

impl View for DirEntry {
    type V = DirEntryView;

    open spec fn view(&self) -> DirEntryView {
        DirEntryView { file_name: self.file_name@, is_file: self.is_file }
    }
}

impl DeepView for DirEntry {
    type V = DirEntryView;

    open spec fn deep_view(&self) -> DirEntryView {
        self@
    }
}

/// One step on the file system.
#[derive(Debug, Clone, PartialEq, Eq)]
pub enum FsRequest {
    /// Find out whether anything stands at the path.
    Probe { path: String },
    /// Open the file, read it to its end and decode the prompt in it.
    Load { path: String },
    /// Create the directory and its ancestors unless they exist.
    MakeDir { path: String },
    /// Encode the prompt, create or truncate the file and write the text.
    Store { path: String, prompt: Prompt },
    /// Move a file to another path in one step, replacing what stands
    /// there.
    Rename { from: String, to: String },
    /// Remove the file.
    Remove { path: String },
    /// List the entries of the directory.
    Scan { path: String },
}

/// What a request holds, as mathematical values.
pub enum FsRequestView {
    Probe { path: Seq<char> },
    Load { path: Seq<char> },
    MakeDir { path: Seq<char> },
    Store { path: Seq<char>, prompt: PromptView },
    Rename { from: Seq<char>, to: Seq<char> },
    Remove { path: Seq<char> },
    Scan { path: Seq<char> },
}

impl View for FsRequest {
    type V = FsRequestView;

    open spec fn view(&self) -> FsRequestView {
        match self {
            FsRequest::Probe { path } => FsRequestView::Probe { path: path@ },
            FsRequest::Load { path } => FsRequestView::Load { path: path@ },
            FsRequest::MakeDir { path } => FsRequestView::MakeDir { path: path@ },
            FsRequest::Store { path, prompt } => FsRequestView::Store {
                path: path@,
                prompt: prompt@,
            },
            FsRequest::Rename { from, to } => FsRequestView::Rename { from: from@, to: to@ },
            FsRequest::Remove { path } => FsRequestView::Remove { path: path@ },
            FsRequest::Scan { path } => FsRequestView::Scan { path: path@ },
        }
    }
}

/// Why a step on the file system failed.
#[derive(Clone, Copy, Debug, PartialEq, Eq, Structural)]
pub enum FsFault {
    /// Nothing stands at the path.
    NotFound,
    /// The document could not be decoded, or the prompt could not be
    /// encoded.
    Format,
    /// Any other failure of the file system.
    Other,
}

/// The outcome of one step on the file system.
#[derive(Debug, Clone, PartialEq, Eq)]
pub enum FsReply {
    /// The answer to `Probe`.
    Probed { exists: bool },
    /// The answer to `Load`: the prompt that the document holds.
    Loaded { prompt: Prompt },
    /// The answer to `Scan`: the entries, in the order in which the file
    /// system gave them.
    Scanned { entries: Vec<DirEntry> },
    /// The answer to `MakeDir`, `Store`, `Rename` and `Remove`.
    Completed,
    /// The step failed.
    Failed { fault: FsFault, detail: String },
}

/// What a reply holds, as mathematical values.
pub enum FsReplyView {
    Probed { exists: bool },
    Loaded { prompt: PromptView },
    Scanned { entries: Seq<DirEntryView> },
    Completed,
    Failed { fault: FsFault, detail: Seq<char> },
}

impl View for FsReply {
    type V = FsReplyView;

    open spec fn view(&self) -> FsReplyView {
        match self {
            FsReply::Probed { exists } => FsReplyView::Probed { exists: *exists },
            FsReply::Loaded { prompt } => FsReplyView::Loaded { prompt: prompt@ },
            FsReply::Scanned { entries } => FsReplyView::Scanned { entries: entries.deep_view() },
            FsReply::Completed => FsReplyView::Completed,
            FsReply::Failed { fault, detail } => FsReplyView::Failed {
                fault: *fault,
                detail: detail@,
            },
        }
    }
}

/// The text that stands for a reply that does not answer the request.
pub open spec fn unexpected_reply() -> Seq<char> {
    "unexpected reply from the file system"@
}

/// The error that an operation reports when a step failed or when the
/// reply does not answer the request: a validation error where data could
/// not be decoded or encoded, an input or output error otherwise.
pub open spec fn failure_of(
    operation: Operation,
    id: Option<PromptId>,
    reply: FsReplyView,
) -> StorageErrorView {
    match reply {
        FsReplyView::Failed { fault: FsFault::Format, detail } => StorageErrorView::plain(
            ErrorKind::Validation,
            operation,
            id,
            detail,
        ),
        FsReplyView::Failed { fault, detail } => StorageErrorView::plain(
            ErrorKind::Io,
            operation,
            id,
            detail,
        ),
        _ => StorageErrorView::plain(ErrorKind::Io, operation, id, unexpected_reply()),
    }
}

/// The error that an operation reports when a step failed or when the
/// reply does not answer the request.
pub fn failure(operation: Operation, id: Option<PromptId>, reply: FsReply) -> (error: StorageError)
    ensures
        error@ == failure_of(operation, id, reply@),
{
    match reply {
        FsReply::Failed { fault, detail } => {
            match fault {
                FsFault::Format => StorageError::new(ErrorKind::Validation, operation, id, detail),
                _ => StorageError::new(ErrorKind::Io, operation, id, detail),
            }
        },
        _ => StorageError::new(
            ErrorKind::Io,
            operation,
            id,
            "unexpected reply from the file system".to_owned(),
        ),
    }
}

} // verus!
