//! The storage contract: what its operations return, how they fail, and
//! the two backends that satisfy it.

pub mod file_steps;
pub mod contract;
pub mod file_laws;
pub mod file_model;
pub mod filesystem;
pub mod postgres;
pub mod table_model;

use crate::models::ident::PromptId;
use crate::models::prompt::{Prompt, PromptView};
use vstd::prelude::*;

verus! {

/// The two ways in which an operation can fail. That a record is absent is
/// no failure: it is reported as `None` or `false`.
#[derive(Clone, Copy, Debug, PartialEq, Eq, Structural)]
pub enum ErrorKind {
    /// Persisted data or an identifier is malformed.
    Validation,
    /// The backing store could not be reached or refused the request.
    Io,
}

/// The operations of the storage contract, and the preparation of a
/// backend.
#[derive(Clone, Copy, Debug, PartialEq, Eq, Structural)]
pub enum Operation {
    Init,
    List,
    Get,
    Save,
    Delete,
}

/// A failure of a storage operation: its kind, the operation and the
/// identifier it concerned, the underlying cause, and the annotations that
/// callers added on its way up, the innermost first.
#[derive(Debug, Clone, PartialEq, Eq)]
pub struct StorageError {
    pub kind: ErrorKind,
    pub operation: Operation,
    pub id: Option<PromptId>,
    pub cause: String,
    pub context: Vec<String>,
}

/// What a storage error holds, as mathematical values.
pub struct StorageErrorView {
    pub kind: ErrorKind,
    pub operation: Operation,
    pub id: Option<PromptId>,
    pub cause: Seq<char>,
    pub context: Seq<Seq<char>>,
}

impl StorageErrorView {
    /// An error that no caller has annotated yet.
    pub open spec fn plain(
        kind: ErrorKind,
        operation: Operation,
        id: Option<PromptId>,
        cause: Seq<char>,
    ) -> StorageErrorView {
        StorageErrorView { kind, operation, id, cause, context: Seq::empty() }
    }

    /// The same error with one more annotation.
    pub open spec fn annotated(self, note: Seq<char>) -> StorageErrorView {
        StorageErrorView { context: self.context.push(note), ..self }
    }
}

impl View for StorageError {
    type V = StorageErrorView;

    open spec fn view(&self) -> StorageErrorView {
        StorageErrorView {
            kind: self.kind,
            operation: self.operation,
            id: self.id,
            cause: self.cause@,
            context: self.context.deep_view(),
        }
    }
}

impl StorageError {
    /// An error that no caller has annotated yet.
    pub fn new(kind: ErrorKind, operation: Operation, id: Option<PromptId>, cause: String) -> (error:
        StorageError)
        ensures
            error@ == StorageErrorView::plain(kind, operation, id, cause@),
    {
        let error = StorageError { kind, operation, id, cause, context: Vec::new() };
        assert(error.context.deep_view() =~= Seq::empty());
        error
    }

    /// Adds an annotation, keeping the kind, the operation, the identifier
    /// and the cause.
    pub fn with_context(self, note: String) -> (error: StorageError)
        ensures
            error@ == self@.annotated(note@),
    {
        let mut context = self.context;
        let ghost before = context.deep_view();
        context.push(note);
        assert(context.deep_view() =~= before.push(note@));
        StorageError {
            kind: self.kind,
            operation: self.operation,
            id: self.id,
            cause: self.cause,
            context,
        }
    }
}

/// What a backend does next: it either asks the surrounding program to
/// perform a request and to come back with the reply, or it is done.
#[derive(Debug)]
pub enum Step<Task, Request, Output> {
    Ask { task: Task, request: Request },
    Done { output: Output },
}

/// The view of the result of `get`.
pub open spec fn found_view(result: Result<Option<Prompt>, StorageError>) -> Result<
    Option<PromptView>,
    StorageErrorView,
> {
    match result {
        Ok(Some(prompt)) => Ok(Some(prompt@)),
        Ok(None) => Ok(None),
        Err(error) => Err(error@),
    }
}

/// The view of the result of `list`.
pub open spec fn listed_view(result: Result<Vec<Prompt>, StorageError>) -> Result<
    Seq<PromptView>,
    StorageErrorView,
> {
    match result {
        Ok(prompts) => Ok(prompts.deep_view()),
        Err(error) => Err(error@),
    }
}

/// The view of the result of `save` or `delete`.
pub open spec fn plain_view<T>(result: Result<T, StorageError>) -> Result<T, StorageErrorView> {
    match result {
        Ok(value) => Ok(value),
        Err(error) => Err(error@),
    }
}

/// An operation of the storage contract, as a front end asks for it.
#[derive(Debug, Clone, PartialEq, Eq)]
pub enum StorageCall {
    /// Every stored prompt, in an order that the backend chooses.
    List,
    /// The prompt with the given identifier.
    Get { id: PromptId },
    /// Create the record of the prompt, or replace it whole.
    Save { prompt: Prompt },
    /// Remove the record with the given identifier.
    Delete { id: PromptId },
}

/// What a call holds, as mathematical values.
pub enum StorageCallView {
    List,
    Get { id: PromptId },
    Save { prompt: PromptView },
    Delete { id: PromptId },
}

impl View for StorageCall {
    type V = StorageCallView;

    open spec fn view(&self) -> StorageCallView {
        match self {
            StorageCall::List => StorageCallView::List,
            StorageCall::Get { id } => StorageCallView::Get { id: *id },
            StorageCall::Save { prompt } => StorageCallView::Save { prompt: prompt@ },
            StorageCall::Delete { id } => StorageCallView::Delete { id: *id },
        }
    }
}

/// What a backend returned for a call. That a record is absent is part of
/// the result, not a failure.
#[derive(Debug)]
pub enum StorageReply {
    Listed { result: Result<Vec<Prompt>, StorageError> },
    Found { result: Result<Option<Prompt>, StorageError> },
    Saved { result: Result<(), StorageError> },
    Deleted { result: Result<bool, StorageError> },
}

/// What a reply holds, as mathematical values.
pub enum StorageReplyView {
    Listed { result: Result<Seq<PromptView>, StorageErrorView> },
    Found { result: Result<Option<PromptView>, StorageErrorView> },
    Saved { result: Result<(), StorageErrorView> },
    Deleted { result: Result<bool, StorageErrorView> },
}

impl View for StorageReply {
    type V = StorageReplyView;

    open spec fn view(&self) -> StorageReplyView {
        match self {
            StorageReply::Listed { result } => StorageReplyView::Listed {
                result: listed_view(*result),
            },
            StorageReply::Found { result } => StorageReplyView::Found {
                result: found_view(*result),
            },
            StorageReply::Saved { result } => StorageReplyView::Saved {
                result: plain_view(*result),
            },
            StorageReply::Deleted { result } => StorageReplyView::Deleted {
                result: plain_view(*result),
            },
        }
    }
}

/// The text that stands for a reply that does not answer the call.
pub open spec fn unexpected_storage_reply() -> Seq<char> {
    "unexpected reply from the storage"@
}

/// The error of a front end that was handed a reply that does not answer
/// its call.
pub open spec fn mismatch_of(operation: Operation) -> StorageErrorView {
    StorageErrorView::plain(ErrorKind::Io, operation, None, unexpected_storage_reply())
}

/// The error of a front end that was handed a reply that does not answer
/// its call.
pub fn mismatch(operation: Operation) -> (error: StorageError)
    ensures
        error@ == mismatch_of(operation),
{
    StorageError::new(
        ErrorKind::Io,
        operation,
        None,
        "unexpected reply from the storage".to_owned(),
    )
}

} // verus!
