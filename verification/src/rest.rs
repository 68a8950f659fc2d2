//! The REST front end: what it asks of the storage for each request, and
//! the status and body with which it answers.
//!
//! Like the protocol front end it is a state machine that performs no
//! input or output.

use crate::models::ident::{canonical_text, uuid_of_text, PromptId};
use crate::models::prompt::{Prompt, PromptView};
use crate::storage::contract::{records_after, reply_owed, Records};
use crate::storage::{Step, StorageCall, StorageCallView, StorageReply, StorageReplyView};
use crate::text::frame;
use vstd::prelude::*;

verus! {

/// The statuses with which the front end answers.
pub const STATUS_OK: u16 = 200;

pub const STATUS_CREATED: u16 = 201;

pub const STATUS_NO_CONTENT: u16 = 204;

pub const STATUS_BAD_REQUEST: u16 = 400;

pub const STATUS_NOT_FOUND: u16 = 404;

pub const STATUS_INTERNAL_SERVER_ERROR: u16 = 500;

/// A request, with the identifier as the path carries it.
#[derive(Debug, Clone, PartialEq, Eq)]
pub enum RestRequest {
    ListPrompts,
    GetPrompt { id: String },
    CreatePrompt { prompt: Prompt },
    /// Save the prompt under the identifier of the path, whatever
    /// identifier the prompt itself carries.
    UpdatePrompt { id: String, prompt: Prompt },
    DeletePrompt { id: String },
}

/// What a request holds, as mathematical values.
pub enum RestRequestView {
    ListPrompts,
    GetPrompt { id: Seq<char> },
    CreatePrompt { prompt: PromptView },
    UpdatePrompt { id: Seq<char>, prompt: PromptView },
    DeletePrompt { id: Seq<char> },
}

impl View for RestRequest {
    type V = RestRequestView;

    open spec fn view(&self) -> RestRequestView {
        match self {
            RestRequest::ListPrompts => RestRequestView::ListPrompts,
            RestRequest::GetPrompt { id } => RestRequestView::GetPrompt { id: id@ },
            RestRequest::CreatePrompt { prompt } => RestRequestView::CreatePrompt {
                prompt: prompt@,
            },
            RestRequest::UpdatePrompt { id, prompt } => RestRequestView::UpdatePrompt {
                id: id@,
                prompt: prompt@,
            },
            RestRequest::DeletePrompt { id } => RestRequestView::DeletePrompt { id: id@ },
        }
    }
}

/// The body of an answer.
#[derive(Debug, Clone, PartialEq, Eq)]
pub enum RestBody {
    /// Prompts, to be sent as a structured document.
    Prompts { prompts: Vec<Prompt> },
    /// A prompt, to be sent as a structured document.
    Prompt { prompt: Prompt },
    /// A plain text.
    Text { text: String },
    /// No body.
    Empty,
}

/// What a body holds, as mathematical values.
pub enum RestBodyView {
    Prompts { prompts: Seq<PromptView> },
    Prompt { prompt: PromptView },
    Text { text: Seq<char> },
    Empty,
}

impl View for RestBody {
    type V = RestBodyView;

    open spec fn view(&self) -> RestBodyView {
        match self {
            RestBody::Prompts { prompts } => RestBodyView::Prompts { prompts: prompts.deep_view() },
            RestBody::Prompt { prompt } => RestBodyView::Prompt { prompt: prompt@ },
            RestBody::Text { text } => RestBodyView::Text { text: text@ },
            RestBody::Empty => RestBodyView::Empty,
        }
    }
}

/// An answer: its status and its body.
#[derive(Debug, Clone, PartialEq, Eq)]
pub struct RestResponse {
    pub status: u16,
    pub body: RestBody,
}

/// What an answer holds, as mathematical values.
pub struct RestResponseView {
    pub status: u16,
    pub body: RestBodyView,
}

impl View for RestResponse {
    type V = RestResponseView;

    open spec fn view(&self) -> RestResponseView {
        RestResponseView { status: self.status, body: self.body@ }
    }
}

/// Where the handling of a request stands. `id` is the identifier as the
/// path carried it.
#[derive(Debug, Clone, PartialEq, Eq)]
pub enum RestTask {
    Listing,
    Getting { id: String },
    Creating { prompt: Prompt },
    Updating { prompt: Prompt },
    Deleting { id: String },
}

/// Where the handling of a request stands, as mathematical values.
pub enum RestTaskView {
    Listing,
    Getting { id: Seq<char> },
    Creating { prompt: PromptView },
    Updating { prompt: PromptView },
    Deleting { id: Seq<char> },
}

impl View for RestTask {
    type V = RestTaskView;

    open spec fn view(&self) -> RestTaskView {
        match self {
            RestTask::Listing => RestTaskView::Listing,
            RestTask::Getting { id } => RestTaskView::Getting { id: id@ },
            RestTask::Creating { prompt } => RestTaskView::Creating { prompt: prompt@ },
            RestTask::Updating { prompt } => RestTaskView::Updating { prompt: prompt@ },
            RestTask::Deleting { id } => RestTaskView::Deleting { id: id@ },
        }
    }
}

/// The next step of the handling of a request.
pub type RestStep = Step<RestTask, StorageCall, RestResponse>;

/// The next step of the handling of a request, as mathematical values.
pub type RestStepView = Step<RestTaskView, StorageCallView, RestResponseView>;

/// The view of the next step of the handling of a request.
pub open spec fn rest_step_view(step: RestStep) -> RestStepView {
    match step {
        Step::Ask { task, request } => Step::Ask { task: task@, request: request@ },
        Step::Done { output } => Step::Done { output: output@ },
    }
}

/// An answer that ends the handling with a plain text.
pub open spec fn answer_text(status: u16, text: Seq<char>) -> RestStepView {
    Step::Done { output: RestResponseView { status, body: RestBodyView::Text { text } } }
}

/// An answer that ends the handling with a prompt.
pub open spec fn answer_prompt(status: u16, prompt: PromptView) -> RestStepView {
    Step::Done { output: RestResponseView { status, body: RestBodyView::Prompt { prompt } } }
}

/// The answer to a malformed identifier: a bad request.
pub open spec fn bad_id() -> RestStepView {
    answer_text(STATUS_BAD_REQUEST, "Invalid prompt ID format. Please use UUID."@)
}

/// The answer for a record that does not exist.
pub open spec fn no_such_record(id: Seq<char>) -> RestStepView {
    answer_text(STATUS_NOT_FOUND, crate::text::framed("Prompt with id "@, id, " not found"@))
}

/// The identifier that the path of a request carries; empty where it
/// carries none.
pub open spec fn rest_request_id(request: RestRequestView) -> Seq<char> {
    match request {
        RestRequestView::GetPrompt { id } => id,
        RestRequestView::UpdatePrompt { id, prompt } => id,
        RestRequestView::DeletePrompt { id } => id,
        _ => Seq::empty(),
    }
}

/// How the handling of a request begins, `read` being what was read from
/// the identifier of the path. A malformed identifier is answered at once,
/// as a bad request, before any storage call is made. An update saves the
/// prompt under the identifier of the path.
pub open spec fn rest_begins_reading(request: RestRequestView, read: Option<u128>) -> RestStepView {
    match request {
        RestRequestView::ListPrompts => Step::Ask {
            task: RestTaskView::Listing,
            request: StorageCallView::List,
        },
        RestRequestView::GetPrompt { id } => match read {
            Some(bits) => Step::Ask {
                task: RestTaskView::Getting { id },
                request: StorageCallView::Get { id: PromptId { bits } },
            },
            None => bad_id(),
        },
        RestRequestView::CreatePrompt { prompt } => Step::Ask {
            task: RestTaskView::Creating { prompt },
            request: StorageCallView::Save { prompt },
        },
        RestRequestView::UpdatePrompt { id, prompt } => match read {
            Some(bits) => Step::Ask {
                task: RestTaskView::Updating { prompt: prompt.with_id(PromptId { bits }) },
                request: StorageCallView::Save { prompt: prompt.with_id(PromptId { bits }) },
            },
            None => bad_id(),
        },
        RestRequestView::DeletePrompt { id } => match read {
            Some(bits) => Step::Ask {
                task: RestTaskView::Deleting { id },
                request: StorageCallView::Delete { id: PromptId { bits } },
            },
            None => bad_id(),
        },
    }
}

/// How the handling of a request begins. The identifier of the path is
/// read in any of the textual forms of an identifier.
pub open spec fn rest_begins(request: RestRequestView) -> RestStepView {
    rest_begins_reading(request, uuid_of_text(rest_request_id(request)))
}

/// How the handling of a request ends, given the storage's reply: a record
/// that is absent is answered as not found, and a failure of the storage,
/// or a reply that does not answer the call, as an internal failure.
pub open spec fn rest_resumes(task: RestTaskView, reply: StorageReplyView) -> RestStepView {
    match task {
        RestTaskView::Listing => match reply {
            StorageReplyView::Listed { result: Ok(prompts) } => Step::Done {
                output: RestResponseView {
                    status: STATUS_OK,
                    body: RestBodyView::Prompts { prompts },
                },
            },
            _ => answer_text(STATUS_INTERNAL_SERVER_ERROR, "Failed to list prompts"@),
        },
        RestTaskView::Getting { id } => match reply {
            StorageReplyView::Found { result: Ok(Some(prompt)) } => answer_prompt(STATUS_OK, prompt),
            StorageReplyView::Found { result: Ok(None) } => no_such_record(id),
            _ => answer_text(STATUS_INTERNAL_SERVER_ERROR, "Failed to retrieve prompt"@),
        },
        RestTaskView::Creating { prompt } => match reply {
            StorageReplyView::Saved { result: Ok(done) } => answer_prompt(STATUS_CREATED, prompt),
            _ => answer_text(STATUS_INTERNAL_SERVER_ERROR, "Failed to create prompt"@),
        },
        RestTaskView::Updating { prompt } => match reply {
            StorageReplyView::Saved { result: Ok(done) } => answer_prompt(STATUS_OK, prompt),
            _ => answer_text(STATUS_INTERNAL_SERVER_ERROR, "Failed to update prompt"@),
        },
        RestTaskView::Deleting { id } => match reply {
            StorageReplyView::Deleted { result: Ok(existed) } => if existed {
                Step::Done {
                    output: RestResponseView {
                        status: STATUS_NO_CONTENT,
                        body: RestBodyView::Empty,
                    },
                }
            } else {
                no_such_record(id)
            },
            _ => answer_text(STATUS_INTERNAL_SERVER_ERROR, "Failed to delete prompt"@),
        },
    }
}

/// An answer that ends the handling with a plain text.
fn text_answer(status: u16, text: String) -> (step: RestStep)
    ensures
        rest_step_view(step) == answer_text(status, text@),
{
    Step::Done { output: RestResponse { status, body: RestBody::Text { text } } }
}

/// An answer that ends the handling with a prompt.
fn prompt_answer(status: u16, prompt: Prompt) -> (step: RestStep)
    ensures
        rest_step_view(step) == answer_prompt(status, prompt@),
{
    Step::Done { output: RestResponse { status, body: RestBody::Prompt { prompt } } }
}

/// Begins the handling of a request. An identifier in canonical text is
/// always read as the identifier that it is the text of.
pub fn begin(request: RestRequest) -> (step: RestStep)
    ensures
        rest_step_view(step) == rest_begins(request@),
        forall|b: u128|
            rest_request_id(request@) == canonical_text(b) ==> rest_step_view(step)
                == rest_begins_reading(request@, Some(b)),
{
    match request {
        RestRequest::ListPrompts => Step::Ask { task: RestTask::Listing, request: StorageCall::List },
        RestRequest::GetPrompt { id } => match PromptId::parse(id.as_str()) {
            Some(parsed) => Step::Ask {
                task: RestTask::Getting { id },
                request: StorageCall::Get { id: parsed },
            },
            None => text_answer(
                STATUS_BAD_REQUEST,
                "Invalid prompt ID format. Please use UUID.".to_owned(),
            ),
        },
        RestRequest::CreatePrompt { prompt } => {
            let kept = prompt.duplicate();
            Step::Ask { task: RestTask::Creating { prompt: kept }, request: StorageCall::Save { prompt } }
        },
        RestRequest::UpdatePrompt { id, prompt } => match PromptId::parse(id.as_str()) {
            Some(parsed) => {
                let mut prompt = prompt;
                prompt.id = parsed;
                let kept = prompt.duplicate();
                Step::Ask {
                    task: RestTask::Updating { prompt: kept },
                    request: StorageCall::Save { prompt },
                }
            },
            None => text_answer(
                STATUS_BAD_REQUEST,
                "Invalid prompt ID format. Please use UUID.".to_owned(),
            ),
        },
        RestRequest::DeletePrompt { id } => match PromptId::parse(id.as_str()) {
            Some(parsed) => Step::Ask {
                task: RestTask::Deleting { id },
                request: StorageCall::Delete { id: parsed },
            },
            None => text_answer(
                STATUS_BAD_REQUEST,
                "Invalid prompt ID format. Please use UUID.".to_owned(),
            ),
        },
    }
}

/// Ends the handling of a request, given the storage's reply.
pub fn resume(task: RestTask, reply: StorageReply) -> (step: RestStep)
    ensures
        rest_step_view(step) == rest_resumes(task@, reply@),
{
    match task {
        RestTask::Listing => match reply {
            StorageReply::Listed { result: Ok(prompts) } => Step::Done {
                output: RestResponse { status: STATUS_OK, body: RestBody::Prompts { prompts } },
            },
            _ => text_answer(STATUS_INTERNAL_SERVER_ERROR, "Failed to list prompts".to_owned()),
        },
        RestTask::Getting { id } => match reply {
            StorageReply::Found { result: Ok(Some(prompt)) } => prompt_answer(STATUS_OK, prompt),
            StorageReply::Found { result: Ok(None) } => text_answer(
                STATUS_NOT_FOUND,
                frame("Prompt with id ", id.as_str(), " not found"),
            ),
            _ => text_answer(STATUS_INTERNAL_SERVER_ERROR, "Failed to retrieve prompt".to_owned()),
        },
        RestTask::Creating { prompt } => match reply {
            StorageReply::Saved { result: Ok(done) } => prompt_answer(STATUS_CREATED, prompt),
            _ => text_answer(STATUS_INTERNAL_SERVER_ERROR, "Failed to create prompt".to_owned()),
        },
        RestTask::Updating { prompt } => match reply {
            StorageReply::Saved { result: Ok(done) } => prompt_answer(STATUS_OK, prompt),
            _ => text_answer(STATUS_INTERNAL_SERVER_ERROR, "Failed to update prompt".to_owned()),
        },
        RestTask::Deleting { id } => match reply {
            StorageReply::Deleted { result: Ok(existed) } => {
                if existed {
                    Step::Done {
                        output: RestResponse { status: STATUS_NO_CONTENT, body: RestBody::Empty },
                    }
                } else {
                    text_answer(
                        STATUS_NOT_FOUND,
                        frame("Prompt with id ", id.as_str(), " not found"),
                    )
                }
            },
            _ => text_answer(STATUS_INTERNAL_SERVER_ERROR, "Failed to delete prompt".to_owned()),
        },
    }
}

/// The handling of a request on a store that keeps the storage contract:
/// the records as they stand, and the next step.
pub struct RestProgress {
    pub records: Records,
    pub step: RestStepView,
}

/// The handling of a request at its end, `listed` being the list that a
/// listing returns: no request takes more than one storage call.
pub open spec fn rest_handled(
    records: Records,
    request: RestRequestView,
    listed: Seq<PromptView>,
) -> RestProgress {
    match rest_begins(request) {
        Step::Ask { task, request } => RestProgress {
            records: records_after(records, request),
            step: rest_resumes(task, reply_owed(records, request, listed)),
        },
        Step::Done { output } => RestProgress { records, step: Step::Done { output } },
    }
}

/// The end of a handling with the given step.
pub open spec fn rest_ends(records: Records, step: RestStepView) -> RestProgress {
    RestProgress { records, step }
}

/// A request with a malformed identifier is answered as a bad request,
/// and changes no record.
pub proof fn law_rest_malformed_id(
    records: Records,
    id: Seq<char>,
    prompt: PromptView,
    listed: Seq<PromptView>,
)
    ensures
        uuid_of_text(id) is None ==> rest_handled(
            records,
            RestRequestView::GetPrompt { id },
            listed,
        ) == rest_ends(records, bad_id()),
        uuid_of_text(id) is None ==> rest_handled(
            records,
            RestRequestView::UpdatePrompt { id, prompt },
            listed,
        ) == rest_ends(records, bad_id()),
        uuid_of_text(id) is None ==> rest_handled(
            records,
            RestRequestView::DeletePrompt { id },
            listed,
        ) == rest_ends(records, bad_id()),
{
}

/// A listing and a retrieval change no record. The listing answers with
/// the stored prompts; the retrieval answers with the stored prompt, or
/// with not found where there is none.
pub proof fn law_rest_reads(records: Records, id: Seq<char>, listed: Seq<PromptView>)
    ensures
        rest_handled(records, RestRequestView::ListPrompts, listed) == rest_ends(
            records,
            Step::Done {
                output: RestResponseView {
                    status: STATUS_OK,
                    body: RestBodyView::Prompts { prompts: listed },
                },
            },
        ),
        uuid_of_text(id) matches Some(bits) ==> rest_handled(
            records,
            RestRequestView::GetPrompt { id },
            listed,
        ) == rest_ends(
            records,
            match records.get(PromptId { bits }) {
                Some(prompt) => answer_prompt(STATUS_OK, prompt),
                None => no_such_record(id),
            },
        ),
{
}

/// A creation saves the prompt under the identifier that it carries; an
/// update saves it under the identifier of the path. Both answer with the
/// prompt as it was saved.
pub proof fn law_rest_writes(
    records: Records,
    id: Seq<char>,
    prompt: PromptView,
    listed: Seq<PromptView>,
)
    ensures
        rest_handled(records, (RestRequestView::CreatePrompt { prompt }), listed) == rest_ends(
            records.save(prompt),
            answer_prompt(STATUS_CREATED, prompt),
        ),
        uuid_of_text(id) matches Some(bits) ==> rest_handled(
            records,
            RestRequestView::UpdatePrompt { id, prompt },
            listed,
        ) == rest_ends(
            records.save(prompt.with_id(PromptId { bits })),
            answer_prompt(STATUS_OK, prompt.with_id(PromptId { bits })),
        ),
{
}

/// A removal deletes the record under the identifier and answers without
/// content; where there is none, it answers with not found and changes no
/// record.
pub proof fn law_rest_delete(records: Records, id: Seq<char>, listed: Seq<PromptView>)
    ensures
        uuid_of_text(id) matches Some(bits) ==> ({
            let parsed = PromptId { bits };
            rest_handled(records, RestRequestView::DeletePrompt { id }, listed) == (
            if records.holds(parsed) {
                rest_ends(
                    records.delete(parsed),
                    Step::Done {
                        output: RestResponseView {
                            status: STATUS_NO_CONTENT,
                            body: RestBodyView::Empty,
                        },
                    },
                )
            } else {
                rest_ends(records, no_such_record(id))
            })
        }),
{
    if let Some(bits) = uuid_of_text(id) {
        let parsed = PromptId { bits };
        if !records.holds(parsed) {
            assert(records.delete(parsed).prompts =~= records.prompts);
        }
    }
}

} // verus!
