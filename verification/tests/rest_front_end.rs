use mcp_prompts_rs::models::ident::PromptId;
use mcp_prompts_rs::models::prompt::Prompt;
use mcp_prompts_rs::rest::{begin, resume, RestBody, RestRequest, RestResponse, RestTask};
use mcp_prompts_rs::storage::{ErrorKind, Operation, Step, StorageCall, StorageError, StorageReply};

const ID_A: PromptId = PromptId { bits: 0xa1a2a3a4_b1b2_c1c2_d1d2_d3d4d5d6d7d8 };
const TEXT_A: &str = "a1a2a3a4-b1b2-c1c2-d1d2-d3d4d5d6d7d8";

fn prompt(id: PromptId) -> Prompt {
    Prompt {
        id,
        name: "greeting".to_string(),
        content: "Hello, {{name}}!".to_string(),
        category: None,
        variables: None,
        description: None,
    }
}

fn failure() -> StorageError {
    StorageError::new(ErrorKind::Io, Operation::Get, None, "disk full".to_string())
}

fn answer(step: Step<RestTask, StorageCall, RestResponse>) -> RestResponse {
    match step {
        Step::Done { output } => output,
        Step::Ask { .. } => panic!("the handling is done"),
    }
}

fn asked(step: Step<RestTask, StorageCall, RestResponse>) -> (RestTask, StorageCall) {
    match step {
        Step::Ask { task, request } => (task, request),
        Step::Done { .. } => panic!("the storage is still to be asked"),
    }
}

fn text(status: u16, text: &str) -> RestResponse {
    RestResponse { status, body: RestBody::Text { text: text.to_string() } }
}

#[test]
fn rest_malformed_identifier_is_a_bad_request() {
    let expected = text(400, "Invalid prompt ID format. Please use UUID.");
    assert_eq!(answer(begin(RestRequest::GetPrompt { id: "nope".to_string() })), expected);
    assert_eq!(answer(begin(RestRequest::DeletePrompt { id: "".to_string() })), expected);
    assert_eq!(
        answer(begin(RestRequest::UpdatePrompt { id: "12345".to_string(), prompt: prompt(ID_A) })),
        expected
    );
}

#[test]
fn rest_requests_name_their_storage_call() {
    assert_eq!(begin_pair(RestRequest::ListPrompts), (RestTask::Listing, StorageCall::List));
    assert_eq!(
        begin_pair(RestRequest::GetPrompt { id: TEXT_A.to_string() }),
        (RestTask::Getting { id: TEXT_A.to_string() }, StorageCall::Get { id: ID_A })
    );
    assert_eq!(
        begin_pair(RestRequest::DeletePrompt { id: TEXT_A.to_uppercase() }),
        (RestTask::Deleting { id: TEXT_A.to_uppercase() }, StorageCall::Delete { id: ID_A })
    );
    assert_eq!(
        begin_pair(RestRequest::CreatePrompt { prompt: prompt(ID_A) }),
        (RestTask::Creating { prompt: prompt(ID_A) }, StorageCall::Save { prompt: prompt(ID_A) })
    );
}

fn begin_pair(request: RestRequest) -> (RestTask, StorageCall) {
    asked(begin(request))
}

#[test]
fn rest_update_saves_under_the_identifier_of_the_path() {
    let body = prompt(PromptId { bits: 99 });
    let (task, call) = asked(begin(RestRequest::UpdatePrompt { id: TEXT_A.to_string(), prompt: body }));
    assert_eq!(task, RestTask::Updating { prompt: prompt(ID_A) });
    assert_eq!(call, StorageCall::Save { prompt: prompt(ID_A) });
}

#[test]
fn rest_list_answers_with_the_prompts() {
    let prompts = vec![prompt(ID_A), prompt(PromptId { bits: 2 })];
    let response = answer(resume(RestTask::Listing, StorageReply::Listed { result: Ok(prompts.clone()) }));
    assert_eq!(response, RestResponse { status: 200, body: RestBody::Prompts { prompts } });
    let response = answer(resume(RestTask::Listing, StorageReply::Listed { result: Ok(vec![]) }));
    assert_eq!(response, RestResponse { status: 200, body: RestBody::Prompts { prompts: vec![] } });
    let response = answer(resume(RestTask::Listing, StorageReply::Listed { result: Err(failure()) }));
    assert_eq!(response, text(500, "Failed to list prompts"));
}

#[test]
fn rest_get_tells_absent_from_failed() {
    let task = || RestTask::Getting { id: TEXT_A.to_string() };
    let response = answer(resume(task(), StorageReply::Found { result: Ok(Some(prompt(ID_A))) }));
    assert_eq!(response, RestResponse { status: 200, body: RestBody::Prompt { prompt: prompt(ID_A) } });
    let response = answer(resume(task(), StorageReply::Found { result: Ok(None) }));
    assert_eq!(response, text(404, "Prompt with id a1a2a3a4-b1b2-c1c2-d1d2-d3d4d5d6d7d8 not found"));
    let response = answer(resume(task(), StorageReply::Found { result: Err(failure()) }));
    assert_eq!(response, text(500, "Failed to retrieve prompt"));
}

#[test]
fn rest_create_answers_created() {
    let task = || RestTask::Creating { prompt: prompt(ID_A) };
    let response = answer(resume(task(), StorageReply::Saved { result: Ok(()) }));
    assert_eq!(response, RestResponse { status: 201, body: RestBody::Prompt { prompt: prompt(ID_A) } });
    let response = answer(resume(task(), StorageReply::Saved { result: Err(failure()) }));
    assert_eq!(response, text(500, "Failed to create prompt"));
}

#[test]
fn rest_update_answers_with_the_saved_prompt() {
    let task = || RestTask::Updating { prompt: prompt(ID_A) };
    let response = answer(resume(task(), StorageReply::Saved { result: Ok(()) }));
    assert_eq!(response, RestResponse { status: 200, body: RestBody::Prompt { prompt: prompt(ID_A) } });
    let response = answer(resume(task(), StorageReply::Saved { result: Err(failure()) }));
    assert_eq!(response, text(500, "Failed to update prompt"));
}

#[test]
fn rest_delete_answers_no_content_or_not_found() {
    let task = || RestTask::Deleting { id: TEXT_A.to_string() };
    let response = answer(resume(task(), StorageReply::Deleted { result: Ok(true) }));
    assert_eq!(response, RestResponse { status: 204, body: RestBody::Empty });
    let response = answer(resume(task(), StorageReply::Deleted { result: Ok(false) }));
    assert_eq!(response, text(404, "Prompt with id a1a2a3a4-b1b2-c1c2-d1d2-d3d4d5d6d7d8 not found"));
    let response = answer(resume(task(), StorageReply::Deleted { result: Err(failure()) }));
    assert_eq!(response, text(500, "Failed to delete prompt"));
}

#[test]
fn rest_reply_that_does_not_answer_the_call_is_an_internal_failure() {
    let response = answer(resume(RestTask::Listing, StorageReply::Saved { result: Ok(()) }));
    assert_eq!(response, text(500, "Failed to list prompts"));
    let response = answer(resume(
        RestTask::Getting { id: TEXT_A.to_string() },
        StorageReply::Deleted { result: Ok(true) },
    ));
    assert_eq!(response, text(500, "Failed to retrieve prompt"));
    let response = answer(resume(
        RestTask::Creating { prompt: prompt(ID_A) },
        StorageReply::Found { result: Ok(None) },
    ));
    assert_eq!(response, text(500, "Failed to create prompt"));
    let response = answer(resume(
        RestTask::Updating { prompt: prompt(ID_A) },
        StorageReply::Listed { result: Ok(vec![]) },
    ));
    assert_eq!(response, text(500, "Failed to update prompt"));
    let response = answer(resume(
        RestTask::Deleting { id: TEXT_A.to_string() },
        StorageReply::Saved { result: Ok(()) },
    ));
    assert_eq!(response, text(500, "Failed to delete prompt"));
}

#[test]
fn rest_canonical_identifier_is_always_accepted() {
    for bits in [0u128, 1, u128::MAX, 0xa1a2a3a4_b1b2_c1c2_d1d2_d3d4d5d6d7d8] {
        let id = PromptId { bits };
        let (_, call) = asked(begin(RestRequest::GetPrompt { id: id.to_text() }));
        assert_eq!(call, StorageCall::Get { id });
        let (_, call) = asked(begin(RestRequest::DeletePrompt { id: id.to_text() }));
        assert_eq!(call, StorageCall::Delete { id });
        let (_, call) = asked(begin(RestRequest::UpdatePrompt { id: id.to_text(), prompt: prompt(ID_A) }));
        assert_eq!(call, StorageCall::Save { prompt: prompt(id) });
    }
}
