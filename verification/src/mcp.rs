//! The protocol front end: what it asks of the storage for each request of
//! a client, and what it answers.
//!
//! The front end performs no input or output. It is a state machine: for a
//! request it either answers at once or names the storage call to make, and
//! it takes the storage's reply as its next input.

use crate::models::ident::{canonical_text, uuid_of_text, PromptId};
use crate::models::prompt::{Prompt, PromptView};
use crate::render::{
    deliver, delivered_content, needs_rendering, rendered_content, rendering_of, substitute,
    Binding, RenderOutcome, Rendering,
};
use crate::storage::contract::{records_after, reply_owed, Records};
use crate::storage::{
    mismatch, mismatch_of, Operation, Step, StorageCall, StorageCallView, StorageError,
    StorageErrorView, StorageReply, StorageReplyView,
};
use crate::text::{concat_text, copy_optional_text, copy_text, frame, framed};
use vstd::prelude::*;

verus! {

/// A prompt as the protocol carries it.
#[derive(Debug, Clone, PartialEq, Eq)]
pub struct McpPrompt {
    /// The identifier, as text.
    pub id: String,
    /// What the prompt is for.
    pub description: Option<String>,
    /// The content, rendered where the client supplied bindings.
    pub content: String,
}

/// What a protocol prompt holds, as mathematical values.
pub struct McpPromptView {
    pub id: Seq<char>,
    pub description: Option<Seq<char>>,
    pub content: Seq<char>,
}

impl View for McpPrompt {
    type V = McpPromptView;

    open spec fn view(&self) -> McpPromptView {
        McpPromptView {
            id: self.id@,
            description: self.description.deep_view(),
            content: self.content@,
        }
    }
}

impl DeepView for McpPrompt {
    type V = McpPromptView;

    open spec fn deep_view(&self) -> McpPromptView {
        self@
    }
}

/// A failure that the protocol reports to the client.
#[derive(Debug, Clone, PartialEq, Eq)]
pub enum ServerError {
    /// The request is malformed or cannot be served as it stands.
    InvalidRequest { message: String },
    /// There is no such record.
    ResourceNotFound { message: String },
    /// The storage failed.
    Internal { error: StorageError },
}

/// What a protocol failure holds, as mathematical values.
pub enum ServerErrorView {
    InvalidRequest { message: Seq<char> },
    ResourceNotFound { message: Seq<char> },
    Internal { error: StorageErrorView },
}

impl View for ServerError {
    type V = ServerErrorView;

    open spec fn view(&self) -> ServerErrorView {
        match self {
            ServerError::InvalidRequest { message } => ServerErrorView::InvalidRequest {
                message: message@,
            },
            ServerError::ResourceNotFound { message } => ServerErrorView::ResourceNotFound {
                message: message@,
            },
            ServerError::Internal { error } => ServerErrorView::Internal { error: error@ },
        }
    }
}

/// How the server reaches its clients.
#[derive(Clone, Copy, Debug, PartialEq, Eq, Structural)]
pub enum TransportType {
    SseServer,
}

/// What the server offers.
#[derive(Debug, Clone, PartialEq, Eq)]
pub struct ServerCapabilities {
    pub server_name: String,
    /// Whether the server serves prompts.
    pub prompts: bool,
    pub transports: Vec<TransportType>,
}

/// A request of a client.
#[derive(Debug, Clone, PartialEq, Eq)]
pub enum McpRequest {
    GetCapabilities,
    ListPrompts,
    /// The prompt with the given identifier, rendered with the bindings
    /// where there are any.
    GetPrompt { id: String, arguments: Vec<Binding> },
    ListResources,
    GetResource { id: String },
    /// Store a prompt under an identifier that is not in use.
    CreatePrompt { prompt: McpPrompt },
    /// Replace the prompt under an identifier that is in use.
    UpdatePrompt { prompt: McpPrompt },
    DeletePrompt { id: String },
}

/// What a request holds, as mathematical values.
pub enum McpRequestView {
    GetCapabilities,
    ListPrompts,
    GetPrompt { id: Seq<char>, arguments: Seq<Binding> },
    ListResources,
    GetResource { id: Seq<char> },
    CreatePrompt { prompt: McpPromptView },
    UpdatePrompt { prompt: McpPromptView },
    DeletePrompt { id: Seq<char> },
}

impl View for McpRequest {
    type V = McpRequestView;

    open spec fn view(&self) -> McpRequestView {
        match self {
            McpRequest::GetCapabilities => McpRequestView::GetCapabilities,
            McpRequest::ListPrompts => McpRequestView::ListPrompts,
            McpRequest::GetPrompt { id, arguments } => McpRequestView::GetPrompt {
                id: id@,
                arguments: arguments@,
            },
            McpRequest::ListResources => McpRequestView::ListResources,
            McpRequest::GetResource { id } => McpRequestView::GetResource { id: id@ },
            McpRequest::CreatePrompt { prompt } => McpRequestView::CreatePrompt { prompt: prompt@ },
            McpRequest::UpdatePrompt { prompt } => McpRequestView::UpdatePrompt { prompt: prompt@ },
            McpRequest::DeletePrompt { id } => McpRequestView::DeletePrompt { id: id@ },
        }
    }
}

/// An answer to a client.
#[derive(Debug, Clone, PartialEq, Eq)]
pub enum McpResponse {
    Capabilities { capabilities: ServerCapabilities },
    Prompts { prompts: Vec<McpPrompt> },
    /// A prompt that was created or updated.
    Prompt { prompt: McpPrompt },
    /// A prompt that was retrieved, with how its content came about.
    Retrieved { prompt: McpPrompt, rendering: Rendering },
    /// The list of resources, which is always empty.
    Resources,
    /// The prompt was deleted.
    Deleted,
}

/// What an answer holds, as mathematical values.
pub enum McpResponseView {
    Capabilities { server_name: Seq<char>, prompts: bool, transports: Seq<TransportType> },
    Prompts { prompts: Seq<McpPromptView> },
    Prompt { prompt: McpPromptView },
    Retrieved { prompt: McpPromptView, rendering: Rendering },
    Resources,
    Deleted,
}

impl View for McpResponse {
    type V = McpResponseView;

    open spec fn view(&self) -> McpResponseView {
        match self {
            McpResponse::Capabilities { capabilities } => McpResponseView::Capabilities {
                server_name: capabilities.server_name@,
                prompts: capabilities.prompts,
                transports: capabilities.transports@,
            },
            McpResponse::Prompts { prompts } => McpResponseView::Prompts {
                prompts: prompts.deep_view(),
            },
            McpResponse::Prompt { prompt } => McpResponseView::Prompt { prompt: prompt@ },
            McpResponse::Retrieved { prompt, rendering } => McpResponseView::Retrieved {
                prompt: prompt@,
                rendering: *rendering,
            },
            McpResponse::Resources => McpResponseView::Resources,
            McpResponse::Deleted => McpResponseView::Deleted,
        }
    }
}

/// Where the handling of a request stands. `id` is the identifier as the
/// client wrote it.
#[derive(Debug, Clone, PartialEq, Eq)]
pub enum McpTask {
    /// It asked for all prompts.
    Listing,
    /// It asked for the prompt to return.
    Getting { id: String, arguments: Vec<Binding> },
    /// It asked whether the identifier of a prompt to create is in use.
    CreateChecking { prompt: Prompt, id: String },
    /// It asked for the save of a prompt to create.
    CreateSaving { prompt: Prompt, id: String },
    /// It asked whether the identifier of a prompt to update is in use.
    UpdateChecking { prompt: Prompt, id: String },
    /// It asked for the save of a prompt to update.
    UpdateSaving { prompt: Prompt, id: String },
    /// It asked for the removal of a prompt.
    Deleting { id: String },
}

/// Where the handling of a request stands, as mathematical values.
pub enum McpTaskView {
    Listing,
    Getting { id: Seq<char>, arguments: Seq<Binding> },
    CreateChecking { prompt: PromptView, id: Seq<char> },
    CreateSaving { prompt: PromptView, id: Seq<char> },
    UpdateChecking { prompt: PromptView, id: Seq<char> },
    UpdateSaving { prompt: PromptView, id: Seq<char> },
    Deleting { id: Seq<char> },
}

impl View for McpTask {
    type V = McpTaskView;

    open spec fn view(&self) -> McpTaskView {
        match self {
            McpTask::Listing => McpTaskView::Listing,
            McpTask::Getting { id, arguments } => McpTaskView::Getting {
                id: id@,
                arguments: arguments@,
            },
            McpTask::CreateChecking { prompt, id } => McpTaskView::CreateChecking {
                prompt: prompt@,
                id: id@,
            },
            McpTask::CreateSaving { prompt, id } => McpTaskView::CreateSaving {
                prompt: prompt@,
                id: id@,
            },
            McpTask::UpdateChecking { prompt, id } => McpTaskView::UpdateChecking {
                prompt: prompt@,
                id: id@,
            },
            McpTask::UpdateSaving { prompt, id } => McpTaskView::UpdateSaving {
                prompt: prompt@,
                id: id@,
            },
            McpTask::Deleting { id } => McpTaskView::Deleting { id: id@ },
        }
    }
}

/// The answer to a request, or the failure.
pub type McpResult = Result<McpResponse, ServerError>;

/// The answer to a request, as mathematical values.
pub type McpResultView = Result<McpResponseView, ServerErrorView>;

/// The next step of the handling of a request.
pub type McpStep = Step<McpTask, StorageCall, McpResult>;

/// The next step of the handling of a request, as mathematical values.
pub type McpStepView = Step<McpTaskView, StorageCallView, McpResultView>;

/// The view of the answer to a request.
pub open spec fn mcp_result_view(result: McpResult) -> McpResultView {
    match result {
        Ok(response) => Ok(response@),
        Err(error) => Err(error@),
    }
}

/// The view of the next step of the handling of a request.
pub open spec fn mcp_step_view(step: McpStep) -> McpStepView {
    match step {
        Step::Ask { task, request } => Step::Ask { task: task@, request: request@ },
        Step::Done { output } => Step::Done { output: mcp_result_view(output) },
    }
}

/// The protocol prompt that stands for a stored prompt, with the given
/// content: its identifier in canonical text, and its category as the
/// description.
pub open spec fn mcp_prompt_with(prompt: PromptView, content: Seq<char>) -> McpPromptView {
    McpPromptView { id: canonical_text(prompt.id.bits), description: prompt.category, content }
}

/// The protocol prompt that stands for a stored prompt.
pub open spec fn mcp_prompt_of(prompt: PromptView) -> McpPromptView {
    mcp_prompt_with(prompt, prompt.content)
}

/// The failure that rejects a malformed identifier.
pub open spec fn invalid_id(id: Seq<char>) -> ServerErrorView {
    ServerErrorView::InvalidRequest { message: "Invalid prompt ID format: "@ + id }
}

/// The stored prompt that a protocol prompt stands for, `read` being what
/// was read from its identifier: the identifier's text is its name, and the
/// description is also its category. A malformed identifier is rejected as
/// an invalid request.
pub open spec fn prompt_of_mcp_reading(prompt: McpPromptView, read: Option<u128>) -> Result<
    PromptView,
    ServerErrorView,
> {
    match read {
        Some(bits) => Ok(
            PromptView {
                id: PromptId { bits },
                name: prompt.id,
                content: prompt.content,
                category: prompt.description,
                variables: None,
                description: prompt.description,
            },
        ),
        None => Err(invalid_id(prompt.id)),
    }
}

/// The stored prompt that a protocol prompt stands for. Its identifier is
/// read in any of the textual forms of an identifier.
pub open spec fn prompt_of_mcp(prompt: McpPromptView) -> Result<PromptView, ServerErrorView> {
    prompt_of_mcp_reading(prompt, uuid_of_text(prompt.id))
}

/// The protocol prompts that stand for stored prompts, in their order.
pub open spec fn mcp_prompts_of(prompts: Seq<PromptView>) -> Seq<McpPromptView> {
    Seq::new(prompts.len(), |i: int| mcp_prompt_of(prompts[i]))
}

/// The failure for a record that does not exist; `after` says what could
/// not be done.
pub open spec fn no_such_prompt(id: Seq<char>, after: Seq<char>) -> ServerErrorView {
    ServerErrorView::ResourceNotFound { message: framed("Prompt '"@, id, after) }
}

/// The failure of the storage, annotated with what the front end was
/// doing.
pub open spec fn annotated_failure(
    error: StorageErrorView,
    doing: Seq<char>,
    id: Seq<char>,
) -> ServerErrorView {
    ServerErrorView::Internal { error: error.annotated(framed(doing, id, "'"@)) }
}

/// The failure for a reply that does not answer the call.
pub open spec fn mismatch_failure(operation: Operation) -> McpStepView {
    Step::Done { output: Err(ServerErrorView::Internal { error: mismatch_of(operation) }) }
}

/// What the server offers: prompts, over server-sent events.
pub open spec fn capabilities() -> McpResponseView {
    McpResponseView::Capabilities {
        server_name: "mcp-prompts-rs"@,
        prompts: true,
        transports: seq![TransportType::SseServer],
    }
}

/// The identifier that a request carries, as the client wrote it; empty
/// where the request carries none.
pub open spec fn mcp_request_id(request: McpRequestView) -> Seq<char> {
    match request {
        McpRequestView::GetPrompt { id, arguments } => id,
        McpRequestView::DeletePrompt { id } => id,
        McpRequestView::CreatePrompt { prompt } => prompt.id,
        McpRequestView::UpdatePrompt { prompt } => prompt.id,
        _ => Seq::empty(),
    }
}

/// How the handling of a request begins, `read` being what was read from
/// the identifier that the request carries. A request for capabilities or
/// for resources is answered at once; so is one with a malformed
/// identifier, as an invalid request, before any storage call is made.
pub open spec fn mcp_begins_reading(request: McpRequestView, read: Option<u128>) -> McpStepView {
    match request {
        McpRequestView::GetCapabilities => Step::Done { output: Ok(capabilities()) },
        McpRequestView::ListPrompts => Step::Ask {
            task: McpTaskView::Listing,
            request: StorageCallView::List,
        },
        McpRequestView::GetPrompt { id, arguments } => match read {
            Some(bits) => Step::Ask {
                task: McpTaskView::Getting { id, arguments },
                request: StorageCallView::Get { id: PromptId { bits } },
            },
            None => Step::Done { output: Err(invalid_id(id)) },
        },
        McpRequestView::ListResources => Step::Done { output: Ok(McpResponseView::Resources) },
        McpRequestView::GetResource { id } => Step::Done {
            output: Err(
                ServerErrorView::ResourceNotFound {
                    message: framed("Resource '"@, id, "' not found (or not supported)"@),
                },
            ),
        },
        McpRequestView::CreatePrompt { prompt } => match prompt_of_mcp_reading(prompt, read) {
            Ok(stored) => Step::Ask {
                task: McpTaskView::CreateChecking { prompt: stored, id: prompt.id },
                request: StorageCallView::Get { id: stored.id },
            },
            Err(error) => Step::Done { output: Err(error) },
        },
        McpRequestView::UpdatePrompt { prompt } => match prompt_of_mcp_reading(prompt, read) {
            Ok(stored) => Step::Ask {
                task: McpTaskView::UpdateChecking { prompt: stored, id: prompt.id },
                request: StorageCallView::Get { id: stored.id },
            },
            Err(error) => Step::Done { output: Err(error) },
        },
        McpRequestView::DeletePrompt { id } => match read {
            Some(bits) => Step::Ask {
                task: McpTaskView::Deleting { id },
                request: StorageCallView::Delete { id: PromptId { bits } },
            },
            None => Step::Done { output: Err(invalid_id(id)) },
        },
    }
}

/// How the handling of a request begins. The identifier that the request
/// carries is read in any of the textual forms of an identifier.
pub open spec fn mcp_begins(request: McpRequestView) -> McpStepView {
    mcp_begins_reading(request, uuid_of_text(mcp_request_id(request)))
}

/// The answer to a retrieval that found a prompt: the prompt with its
/// content rendered with the bindings, and how the content came about.
pub open spec fn retrieved_with(stored: PromptView, arguments: Seq<Binding>) -> McpResponseView {
    McpResponseView::Retrieved {
        prompt: mcp_prompt_with(stored, rendered_content(stored.content, arguments)),
        rendering: rendering_of(stored.content, arguments),
    }
}

/// How the handling of a request goes on.
///
/// A retrieval returns the prompt with its content rendered with the
/// request's bindings; without bindings, and where the rendering fails, that
/// is the stored content, and the answer says which of these happened. A prompt is created only where its identifier is
/// not in use, and updated only where it is. A failure of the storage is an
/// internal failure; that a record is absent is not.
pub open spec fn mcp_resumes(task: McpTaskView, reply: StorageReplyView) -> McpStepView {
    match task {
        McpTaskView::Listing => match reply {
            StorageReplyView::Listed { result: Ok(prompts) } => Step::Done {
                output: Ok(McpResponseView::Prompts { prompts: mcp_prompts_of(prompts) }),
            },
            StorageReplyView::Listed { result: Err(error) } => Step::Done {
                output: Err(ServerErrorView::Internal { error }),
            },
            _ => mismatch_failure(Operation::List),
        },
        McpTaskView::Getting { id, arguments } => match reply {
            StorageReplyView::Found { result: Ok(Some(stored)) } => Step::Done {
                output: Ok(retrieved_with(stored, arguments)),
            },
            StorageReplyView::Found { result: Ok(None) } => Step::Done {
                output: Err(no_such_prompt(id, "' not found"@)),
            },
            StorageReplyView::Found { result: Err(error) } => Step::Done {
                output: Err(ServerErrorView::Internal { error }),
            },
            _ => mismatch_failure(Operation::Get),
        },
        McpTaskView::CreateChecking { prompt, id } => match reply {
            StorageReplyView::Found { result: Ok(Some(stored)) } => Step::Done {
                output: Err(
                    ServerErrorView::InvalidRequest {
                        message: framed(
                            "Prompt '"@,
                            id,
                            "' already exists. Use update_prompt instead."@,
                        ),
                    },
                ),
            },
            StorageReplyView::Found { result: Ok(None) } => Step::Ask {
                task: McpTaskView::CreateSaving { prompt, id },
                request: StorageCallView::Save { prompt },
            },
            StorageReplyView::Found { result: Err(error) } => Step::Done {
                output: Err(ServerErrorView::Internal { error }),
            },
            _ => mismatch_failure(Operation::Get),
        },
        McpTaskView::CreateSaving { prompt, id } => match reply {
            StorageReplyView::Saved { result: Ok(done) } => Step::Done {
                output: Ok(McpResponseView::Prompt { prompt: mcp_prompt_of(prompt) }),
            },
            StorageReplyView::Saved { result: Err(error) } => Step::Done {
                output: Err(annotated_failure(error, "Failed to create prompt '"@, id)),
            },
            _ => mismatch_failure(Operation::Save),
        },
        McpTaskView::UpdateChecking { prompt, id } => match reply {
            StorageReplyView::Found { result: Ok(Some(stored)) } => Step::Ask {
                task: McpTaskView::UpdateSaving { prompt, id },
                request: StorageCallView::Save { prompt },
            },
            StorageReplyView::Found { result: Ok(None) } => Step::Done {
                output: Err(no_such_prompt(id, "' not found. Cannot update."@)),
            },
            StorageReplyView::Found { result: Err(error) } => Step::Done {
                output: Err(ServerErrorView::Internal { error }),
            },
            _ => mismatch_failure(Operation::Get),
        },
        McpTaskView::UpdateSaving { prompt, id } => match reply {
            StorageReplyView::Saved { result: Ok(done) } => Step::Done {
                output: Ok(McpResponseView::Prompt { prompt: mcp_prompt_of(prompt) }),
            },
            StorageReplyView::Saved { result: Err(error) } => Step::Done {
                output: Err(annotated_failure(error, "Failed to update prompt '"@, id)),
            },
            _ => mismatch_failure(Operation::Save),
        },
        McpTaskView::Deleting { id } => match reply {
            StorageReplyView::Deleted { result: Ok(existed) } => if existed {
                Step::Done { output: Ok(McpResponseView::Deleted) }
            } else {
                Step::Done { output: Err(no_such_prompt(id, "' not found. Cannot delete."@)) }
            },
            StorageReplyView::Deleted { result: Err(error) } => Step::Done {
                output: Err(annotated_failure(error, "Failed to delete prompt '"@, id)),
            },
            _ => mismatch_failure(Operation::Delete),
        },
    }
}

/// The view of the result of the reading of a protocol prompt.
pub open spec fn converted_view(converted: Result<Prompt, ServerError>) -> Result<
    PromptView,
    ServerErrorView,
> {
    match converted {
        Ok(stored) => Ok(stored@),
        Err(error) => Err(error@),
    }
}

/// The protocol prompt that stands for a stored prompt.
pub fn to_mcp_prompt(prompt: Prompt) -> (converted: McpPrompt)
    ensures
        converted@ == mcp_prompt_of(prompt@),
{
    McpPrompt { id: prompt.id.to_text(), description: prompt.category, content: prompt.content }
}

/// The stored prompt that a protocol prompt stands for, or the rejection
/// of its identifier.
pub fn from_mcp_prompt(prompt: McpPrompt) -> (converted: Result<Prompt, ServerError>)
    ensures
        converted_view(converted) == prompt_of_mcp(prompt@),
        forall|b: u128|
            prompt.id@ == canonical_text(b) ==> converted_view(converted) == prompt_of_mcp_reading(
                prompt@,
                Some(b),
            ),
{
    match PromptId::parse(prompt.id.as_str()) {
        Some(id) => {
            let category = copy_optional_text(&prompt.description);
            Ok(
                Prompt {
                    id,
                    name: prompt.id,
                    content: prompt.content,
                    category,
                    variables: None,
                    description: prompt.description,
                },
            )
        },
        None => Err(
            ServerError::InvalidRequest {
                message: concat_text("Invalid prompt ID format: ", prompt.id.as_str()),
            },
        ),
    }
}

/// The protocol prompt that a retrieval with bindings returns for the
/// stored prompt and for what the substitution engine made of its content:
/// the rendered content, or the stored content where the engine failed.
pub fn get_prompt_reply(stored: Prompt, outcome: RenderOutcome) -> (prompt: McpPrompt)
    ensures
        prompt@ == mcp_prompt_with(stored@, delivered_content(stored.content@, outcome)),
{
    McpPrompt {
        id: stored.id.to_text(),
        description: stored.category,
        content: deliver(stored.content, outcome),
    }
}

/// The protocol prompts that stand for stored prompts, in their order.
pub fn to_mcp_prompts(prompts: Vec<Prompt>) -> (converted: Vec<McpPrompt>)
    ensures
        converted.deep_view() == mcp_prompts_of(prompts.deep_view()),
{
    let mut converted: Vec<McpPrompt> = Vec::new();
    let mut index: usize = 0;
    while index < prompts.len()
        invariant
            index <= prompts.len(),
            converted.len() == index,
            forall|i: int| 0 <= i < index ==> converted[i]@ == mcp_prompt_of(prompts[i]@),
        decreases prompts.len() - index,
    {
        converted.push(to_mcp_prompt(prompts[index].duplicate()));
        index += 1;
    }
    assert(converted.deep_view() =~= mcp_prompts_of(prompts.deep_view()));
    converted
}

/// The handler of the protocol's requests. It holds no storage: it names
/// the storage calls to make, and whoever drives it makes them.
#[derive(Clone, Copy, Debug, PartialEq, Eq, Structural)]
pub struct McpPromptServerHandler {}

impl McpPromptServerHandler {
    /// A handler.
    pub fn new() -> (handler: McpPromptServerHandler)
        ensures
            handler == (McpPromptServerHandler {  }),
    {
        McpPromptServerHandler {  }
    }

    /// What the server offers.
    pub fn get_capabilities(&self) -> (offered: ServerCapabilities)
        ensures
            (McpResponse::Capabilities { capabilities: offered })@ == capabilities(),
    {
        let mut transports: Vec<TransportType> = Vec::new();
        transports.push(TransportType::SseServer);
        assert(transports@ =~= seq![TransportType::SseServer]);
        ServerCapabilities { server_name: "mcp-prompts-rs".to_owned(), prompts: true, transports }
    }

    /// Begins the handling of a request. An identifier in canonical text
    /// is always read as the identifier that it is the text of.
    pub fn begin(&self, request: McpRequest) -> (step: McpStep)
        ensures
            mcp_step_view(step) == mcp_begins(request@),
            forall|b: u128|
                mcp_request_id(request@) == canonical_text(b) ==> mcp_step_view(step)
                    == mcp_begins_reading(request@, Some(b)),
    {
        match request {
            McpRequest::GetCapabilities => Step::Done {
                output: Ok(McpResponse::Capabilities { capabilities: self.get_capabilities() }),
            },
            McpRequest::ListPrompts => Step::Ask { task: McpTask::Listing, request: StorageCall::List },
            McpRequest::GetPrompt { id, arguments } => match PromptId::parse(id.as_str()) {
                Some(parsed) => Step::Ask {
                    task: McpTask::Getting { id, arguments },
                    request: StorageCall::Get { id: parsed },
                },
                None => Step::Done {
                    output: Err(
                        ServerError::InvalidRequest {
                            message: concat_text("Invalid prompt ID format: ", id.as_str()),
                        },
                    ),
                },
            },
            McpRequest::ListResources => Step::Done { output: Ok(McpResponse::Resources) },
            McpRequest::GetResource { id } => Step::Done {
                output: Err(
                    ServerError::ResourceNotFound {
                        message: frame("Resource '", id.as_str(), "' not found (or not supported)"),
                    },
                ),
            },
            McpRequest::CreatePrompt { prompt } => {
                let id = copy_text(&prompt.id);
                match from_mcp_prompt(prompt) {
                    Ok(stored) => {
                        let call = StorageCall::Get { id: stored.id };
                        Step::Ask { task: McpTask::CreateChecking { prompt: stored, id }, request: call }
                    },
                    Err(error) => Step::Done { output: Err(error) },
                }
            },
            McpRequest::UpdatePrompt { prompt } => {
                let id = copy_text(&prompt.id);
                match from_mcp_prompt(prompt) {
                    Ok(stored) => {
                        let call = StorageCall::Get { id: stored.id };
                        Step::Ask { task: McpTask::UpdateChecking { prompt: stored, id }, request: call }
                    },
                    Err(error) => Step::Done { output: Err(error) },
                }
            },
            McpRequest::DeletePrompt { id } => match PromptId::parse(id.as_str()) {
                Some(parsed) => Step::Ask {
                    task: McpTask::Deleting { id },
                    request: StorageCall::Delete { id: parsed },
                },
                None => Step::Done {
                    output: Err(
                        ServerError::InvalidRequest {
                            message: concat_text("Invalid prompt ID format: ", id.as_str()),
                        },
                    ),
                },
            },
        }
    }

    /// Goes on with the handling of a request, given the storage's reply
    /// to the last call.
    pub fn resume(&self, task: McpTask, reply: StorageReply) -> (step: McpStep)
        ensures
            mcp_step_view(step) == mcp_resumes(task@, reply@),
    {
        match task {
            McpTask::Listing => match reply {
                StorageReply::Listed { result: Ok(prompts) } => Step::Done {
                    output: Ok(McpResponse::Prompts { prompts: to_mcp_prompts(prompts) }),
                },
                StorageReply::Listed { result: Err(error) } => Step::Done {
                    output: Err(ServerError::Internal { error }),
                },
                _ => Step::Done {
                    output: Err(ServerError::Internal { error: mismatch(Operation::List) }),
                },
            },
            McpTask::Getting { id, arguments } => match reply {
                StorageReply::Found { result: Ok(Some(stored)) } => {
                    if needs_rendering(stored.content.as_str(), &arguments) {
                        let outcome = substitute(stored.content.as_str(), &arguments);
                        let rendering = match &outcome {
                            RenderOutcome::Rendered(text) => Rendering::Rendered,
                            RenderOutcome::Failed => Rendering::FellBack,
                        };
                        let prompt = get_prompt_reply(stored, outcome);
                        Step::Done { output: Ok(McpResponse::Retrieved { prompt, rendering }) }
                    } else {
                        let prompt = to_mcp_prompt(stored);
                        Step::Done {
                            output: Ok(
                                McpResponse::Retrieved { prompt, rendering: Rendering::NotAsked },
                            ),
                        }
                    }
                },
                StorageReply::Found { result: Ok(None) } => Step::Done {
                    output: Err(
                        ServerError::ResourceNotFound {
                            message: frame("Prompt '", id.as_str(), "' not found"),
                        },
                    ),
                },
                StorageReply::Found { result: Err(error) } => Step::Done {
                    output: Err(ServerError::Internal { error }),
                },
                _ => Step::Done {
                    output: Err(ServerError::Internal { error: mismatch(Operation::Get) }),
                },
            },
            McpTask::CreateChecking { prompt, id } => match reply {
                StorageReply::Found { result: Ok(Some(stored)) } => Step::Done {
                    output: Err(
                        ServerError::InvalidRequest {
                            message: frame(
                                "Prompt '",
                                id.as_str(),
                                "' already exists. Use update_prompt instead.",
                            ),
                        },
                    ),
                },
                StorageReply::Found { result: Ok(None) } => {
                    let kept = prompt.duplicate();
                    Step::Ask {
                        task: McpTask::CreateSaving { prompt: kept, id },
                        request: StorageCall::Save { prompt },
                    }
                },
                StorageReply::Found { result: Err(error) } => Step::Done {
                    output: Err(ServerError::Internal { error }),
                },
                _ => Step::Done {
                    output: Err(ServerError::Internal { error: mismatch(Operation::Get) }),
                },
            },
            McpTask::CreateSaving { prompt, id } => match reply {
                StorageReply::Saved { result: Ok(done) } => Step::Done {
                    output: Ok(McpResponse::Prompt { prompt: to_mcp_prompt(prompt) }),
                },
                StorageReply::Saved { result: Err(error) } => Step::Done {
                    output: Err(
                        ServerError::Internal {
                            error: error.with_context(
                                frame("Failed to create prompt '", id.as_str(), "'"),
                            ),
                        },
                    ),
                },
                _ => Step::Done {
                    output: Err(ServerError::Internal { error: mismatch(Operation::Save) }),
                },
            },
            McpTask::UpdateChecking { prompt, id } => match reply {
                StorageReply::Found { result: Ok(Some(stored)) } => {
                    let kept = prompt.duplicate();
                    Step::Ask {
                        task: McpTask::UpdateSaving { prompt: kept, id },
                        request: StorageCall::Save { prompt },
                    }
                },
                StorageReply::Found { result: Ok(None) } => Step::Done {
                    output: Err(
                        ServerError::ResourceNotFound {
                            message: frame("Prompt '", id.as_str(), "' not found. Cannot update."),
                        },
                    ),
                },
                StorageReply::Found { result: Err(error) } => Step::Done {
                    output: Err(ServerError::Internal { error }),
                },
                _ => Step::Done {
                    output: Err(ServerError::Internal { error: mismatch(Operation::Get) }),
                },
            },
            McpTask::UpdateSaving { prompt, id } => match reply {
                StorageReply::Saved { result: Ok(done) } => Step::Done {
                    output: Ok(McpResponse::Prompt { prompt: to_mcp_prompt(prompt) }),
                },
                StorageReply::Saved { result: Err(error) } => Step::Done {
                    output: Err(
                        ServerError::Internal {
                            error: error.with_context(
                                frame("Failed to update prompt '", id.as_str(), "'"),
                            ),
                        },
                    ),
                },
                _ => Step::Done {
                    output: Err(ServerError::Internal { error: mismatch(Operation::Save) }),
                },
            },
            McpTask::Deleting { id } => match reply {
                StorageReply::Deleted { result: Ok(existed) } => {
                    if existed {
                        Step::Done { output: Ok(McpResponse::Deleted) }
                    } else {
                        Step::Done {
                            output: Err(
                                ServerError::ResourceNotFound {
                                    message: frame(
                                        "Prompt '",
                                        id.as_str(),
                                        "' not found. Cannot delete.",
                                    ),
                                },
                            ),
                        }
                    }
                },
                StorageReply::Deleted { result: Err(error) } => Step::Done {
                    output: Err(
                        ServerError::Internal {
                            error: error.with_context(
                                frame("Failed to delete prompt '", id.as_str(), "'"),
                            ),
                        },
                    ),
                },
                _ => Step::Done {
                    output: Err(ServerError::Internal { error: mismatch(Operation::Delete) }),
                },
            },
        }
    }
}

/// The handling of a request on a store that keeps the storage contract:
/// the records as they stand, and the next step.
pub struct McpProgress {
    pub records: Records,
    pub step: McpStepView,
}

/// One more step of the handling of a request, `listed` being the list
/// that a listing returns.
pub open spec fn mcp_advances(progress: McpProgress, listed: Seq<PromptView>) -> McpProgress {
    match progress.step {
        Step::Ask { task, request } => McpProgress {
            records: records_after(progress.records, request),
            step: mcp_resumes(task, reply_owed(progress.records, request, listed)),
        },
        Step::Done { output } => progress,
    }
}

/// The handling of a request at its end: no request takes more than two
/// storage calls.
pub open spec fn mcp_handled(
    records: Records,
    request: McpRequestView,
    listed: Seq<PromptView>,
) -> McpProgress {
    mcp_advances(mcp_advances(McpProgress { records, step: mcp_begins(request) }, listed), listed)
}

/// The end of a handling with the given answer.
pub open spec fn mcp_answers(records: Records, response: McpResponseView) -> McpProgress {
    McpProgress { records, step: Step::Done { output: Ok(response) } }
}

/// The end of a handling with the given failure.
pub open spec fn mcp_refuses(records: Records, error: ServerErrorView) -> McpProgress {
    McpProgress { records, step: Step::Done { output: Err(error) } }
}

/// A request with a malformed identifier is refused as invalid, and
/// changes no record.
pub proof fn law_mcp_malformed_id(
    records: Records,
    id: Seq<char>,
    arguments: Seq<Binding>,
    prompt: McpPromptView,
    listed: Seq<PromptView>,
)
    requires
        prompt.id == id,
    ensures
        uuid_of_text(id) is None ==> mcp_handled(
            records,
            McpRequestView::GetPrompt { id, arguments },
            listed,
        ) == mcp_refuses(records, invalid_id(id)),
        uuid_of_text(id) is None ==> mcp_handled(
            records,
            McpRequestView::DeletePrompt { id },
            listed,
        ) == mcp_refuses(records, invalid_id(id)),
        uuid_of_text(id) is None ==> mcp_handled(
            records,
            McpRequestView::CreatePrompt { prompt },
            listed,
        ) == mcp_refuses(records, invalid_id(id)),
        uuid_of_text(id) is None ==> mcp_handled(
            records,
            McpRequestView::UpdatePrompt { prompt },
            listed,
        ) == mcp_refuses(records, invalid_id(id)),
{
}

/// A listing and a retrieval change no record. The listing answers with
/// the stored prompts; the retrieval answers with the stored prompt, its
/// content rendered with the bindings, or reports that there is none.
pub proof fn law_mcp_reads(
    records: Records,
    id: Seq<char>,
    arguments: Seq<Binding>,
    listed: Seq<PromptView>,
)
    ensures
        mcp_handled(records, McpRequestView::ListPrompts, listed) == mcp_answers(
            records,
            (McpResponseView::Prompts { prompts: mcp_prompts_of(listed) }),
        ),
        uuid_of_text(id) matches Some(bits) ==> mcp_handled(
            records,
            McpRequestView::GetPrompt { id, arguments },
            listed,
        ) == (match records.get(PromptId { bits }) {
            Some(stored) => mcp_answers(records, retrieved_with(stored, arguments)),
            None => mcp_refuses(records, no_such_prompt(id, "' not found"@)),
        }),
{
}

/// A prompt is created only under an identifier that is not in use: the
/// request then saves it and answers with it. Under an identifier that is
/// in use the request is refused as invalid and changes no record.
pub proof fn law_mcp_create(records: Records, prompt: McpPromptView, listed: Seq<PromptView>)
    ensures
        prompt_of_mcp(prompt) matches Ok(stored) ==> ({
            mcp_handled(records, McpRequestView::CreatePrompt { prompt }, listed) == (
            if records.holds(stored.id) {
                mcp_refuses(
                    records,
                    ServerErrorView::InvalidRequest {
                        message: framed(
                            "Prompt '"@,
                            prompt.id,
                            "' already exists. Use update_prompt instead."@,
                        ),
                    },
                )
            } else {
                mcp_answers(
                    records.save(stored),
                    McpResponseView::Prompt { prompt: mcp_prompt_of(stored) },
                )
            })
        }),
{
}

/// A prompt is updated only under an identifier that is in use: the
/// request then replaces the record whole and answers with the prompt.
/// Under an identifier that is not in use the request reports that there
/// is no such record and changes none.
pub proof fn law_mcp_update(records: Records, prompt: McpPromptView, listed: Seq<PromptView>)
    ensures
        prompt_of_mcp(prompt) matches Ok(stored) ==> ({
            mcp_handled(records, McpRequestView::UpdatePrompt { prompt }, listed) == (
            if records.holds(stored.id) {
                mcp_answers(
                    records.save(stored),
                    McpResponseView::Prompt { prompt: mcp_prompt_of(stored) },
                )
            } else {
                mcp_refuses(records, no_such_prompt(prompt.id, "' not found. Cannot update."@))
            })
        }),
{
}

/// A removal deletes the record under the identifier; where there is
/// none, it reports so and changes no record.
pub proof fn law_mcp_delete(records: Records, id: Seq<char>, listed: Seq<PromptView>)
    ensures
        uuid_of_text(id) matches Some(bits) ==> ({
            let parsed = PromptId { bits };
            mcp_handled(records, McpRequestView::DeletePrompt { id }, listed) == (
            if records.holds(parsed) {
                mcp_answers(records.delete(parsed), McpResponseView::Deleted)
            } else {
                mcp_refuses(records, no_such_prompt(id, "' not found. Cannot delete."@))
            })
        }),
{
    if let Some(bits) = uuid_of_text(id) {
        let parsed = PromptId { bits };
        if !records.holds(parsed) {
            assert(records.delete(parsed).prompts =~= records.prompts);
        }
    }
}

} // verus!
