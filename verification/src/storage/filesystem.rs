//! The file store: one document per prompt in one directory, named by the
//! prompt's identifier.
//!
//! The store performs no input or output. Each operation is a small state
//! machine: it asks for one step on the file system at a time and takes the
//! reply as its next input.

use crate::models::ident::{canonical_id, canonical_text, lemma_canonical_id_of_text, PromptId};
use crate::models::prompt::{Prompt, PromptView};
use crate::storage::file_steps::{
    failure, failure_of, DirEntry, DirEntryView, FsFault, FsReply, FsReplyView, FsRequest,
    FsRequestView,
};
use crate::storage::{Operation, Step, StorageError, StorageErrorView};
use crate::text::{concat_text, copy_text};
use vstd::prelude::*;

verus! {

/// The file store's configuration: the directory that holds the documents.
#[derive(Debug, Clone)]
pub struct FileSystemStorage {
    pub prompt_dir: String,
}

/// The ending of a document's file name.
pub open spec fn document_suffix() -> Seq<char> {
    ".json"@
}

/// The ending that a document's path carries while it is being written.
pub open spec fn draft_suffix() -> Seq<char> {
    ".tmp"@
}

/// The name of the file that holds the prompt with the given identifier.
pub open spec fn file_name_of(id: PromptId) -> Seq<char> {
    canonical_text(id.bits) + document_suffix()
}

/// The identifier of the prompt that a file of the given name holds, if the
/// name is the file name of a prompt.
pub open spec fn recognized(name: Seq<char>) -> Option<PromptId> {
    if name.len() >= 5 && name.subrange(name.len() - 5, name.len() as int) == document_suffix() {
        canonical_id(name.subrange(0, name.len() - 5))
    } else {
        None
    }
}

/// The path of the entry `name` of the directory `dir`.
pub open spec fn joined(dir: Seq<char>, name: Seq<char>) -> Seq<char> {
    if dir.len() == 0 {
        name
    } else if dir.last() == '/' {
        dir + name
    } else {
        dir + seq!['/'] + name
    }
}

/// The path of the document of the prompt with the given identifier.
pub open spec fn prompt_path(dir: Seq<char>, id: PromptId) -> Seq<char> {
    joined(dir, file_name_of(id))
}

/// The path under which a document is written before it takes its place.
pub open spec fn draft_path(dir: Seq<char>, id: PromptId) -> Seq<char> {
    prompt_path(dir, id) + draft_suffix()
}

/// The file name of a prompt is recognized as that prompt's.
pub proof fn lemma_file_name_recognized(id: PromptId)
    ensures
        recognized(file_name_of(id)) == Some(id),
{
    reveal_strlit(".json");
    let name = file_name_of(id);
    assert(name.len() == 41);
    assert(name.subrange(36, 41) =~= document_suffix());
    assert(name.subrange(0, 36) =~= canonical_text(id.bits));
    lemma_canonical_id_of_text(id);
}

/// A recognized name is the file name of the prompt it is recognized as.
pub proof fn lemma_recognized_is_file_name(name: Seq<char>)
    ensures
        recognized(name) matches Some(id) ==> name == file_name_of(id),
{
    if let Some(id) = recognized(name) {
        let stem = name.subrange(0, name.len() - 5);
        assert(canonical_text(id.bits) == stem);
        assert(name =~= stem + name.subrange(name.len() - 5, name.len() as int));
    }
}

/// Where a retrieval stands.
#[derive(Clone, Copy, Debug, PartialEq, Eq, Structural)]
pub enum GetTask {
    /// It asked whether the document exists.
    Probing { id: PromptId },
    /// It asked for the document.
    Loading { id: PromptId },
}

/// Where a removal stands.
#[derive(Clone, Copy, Debug, PartialEq, Eq, Structural)]
pub enum DeleteTask {
    /// It asked whether the document exists.
    Probing { id: PromptId },
    /// It asked for the removal of the document.
    Removing { id: PromptId },
}

/// Where a save stands.
#[derive(Debug, Clone, PartialEq, Eq)]
pub enum SaveTask {
    /// It asked whether the directory exists.
    ProbingDir { prompt: Prompt },
    /// It asked for the directory.
    MakingDir { prompt: Prompt },
    /// It asked for the document to be written under its draft path.
    Storing { id: PromptId },
    /// It asked for the draft to be moved to the document's path.
    Publishing { id: PromptId },
}

/// Where a save stands, as mathematical values.
pub enum SaveTaskView {
    ProbingDir { prompt: PromptView },
    MakingDir { prompt: PromptView },
    Storing { id: PromptId },
    Publishing { id: PromptId },
}

impl View for SaveTask {
    type V = SaveTaskView;

    open spec fn view(&self) -> SaveTaskView {
        match self {
            SaveTask::ProbingDir { prompt } => SaveTaskView::ProbingDir { prompt: prompt@ },
            SaveTask::MakingDir { prompt } => SaveTaskView::MakingDir { prompt: prompt@ },
            SaveTask::Storing { id } => SaveTaskView::Storing { id: *id },
            SaveTask::Publishing { id } => SaveTaskView::Publishing { id: *id },
        }
    }
}

/// Where a listing stands.
#[derive(Debug, Clone, PartialEq, Eq)]
pub enum ListTask {
    /// It asked for the entries of the directory.
    Scanning,
    /// It asked for the document of the last identifier of `pending`;
    /// `found` holds the prompts of the documents loaded so far.
    Loading { pending: Vec<PromptId>, found: Vec<Prompt> },
}

/// Where a listing stands, as mathematical values.
pub enum ListTaskView {
    Scanning,
    Loading { pending: Seq<PromptId>, found: Seq<PromptView> },
}

impl View for ListTask {
    type V = ListTaskView;

    open spec fn view(&self) -> ListTaskView {
        match self {
            ListTask::Scanning => ListTaskView::Scanning,
            ListTask::Loading { pending, found } => ListTaskView::Loading {
                pending: pending@,
                found: found.deep_view(),
            },
        }
    }
}

/// The result of a retrieval: the prompt, `None` where there is no record,
/// or the failure.
pub type Found = Result<Option<Prompt>, StorageError>;

/// The result of a retrieval, as mathematical values.
pub type FoundView = Result<Option<PromptView>, StorageErrorView>;

/// The result of a listing, as mathematical values.
pub type ListedView = Result<Seq<PromptView>, StorageErrorView>;

/// The result of a save, as mathematical values.
pub type SavedView = Result<(), StorageErrorView>;

/// The result of a removal, as mathematical values: whether a record
/// existed, or the failure.
pub type DeletedView = Result<bool, StorageErrorView>;

/// The next step of a retrieval, as mathematical values.
pub open spec fn get_step_view(step: Step<GetTask, FsRequest, Found>) -> Step<
    GetTask,
    FsRequestView,
    FoundView,
> {
    match step {
        Step::Ask { task, request } => Step::Ask { task, request: request@ },
        Step::Done { output } => Step::Done { output: crate::storage::found_view(output) },
    }
}

/// The next step of a removal, as mathematical values.
pub open spec fn delete_step_view(
    step: Step<DeleteTask, FsRequest, Result<bool, StorageError>>,
) -> Step<DeleteTask, FsRequestView, DeletedView> {
    match step {
        Step::Ask { task, request } => Step::Ask { task, request: request@ },
        Step::Done { output } => Step::Done { output: crate::storage::plain_view(output) },
    }
}

/// The next step of a save, as mathematical values.
pub open spec fn save_step_view(step: Step<SaveTask, FsRequest, Result<(), StorageError>>) -> Step<
    SaveTaskView,
    FsRequestView,
    SavedView,
> {
    match step {
        Step::Ask { task, request } => Step::Ask { task: task@, request: request@ },
        Step::Done { output } => Step::Done { output: crate::storage::plain_view(output) },
    }
}

/// The next step of a listing, as mathematical values.
pub open spec fn list_step_view(
    step: Step<ListTask, FsRequest, Result<Vec<Prompt>, StorageError>>,
) -> Step<ListTaskView, FsRequestView, ListedView> {
    match step {
        Step::Ask { task, request } => Step::Ask { task: task@, request: request@ },
        Step::Done { output } => Step::Done { output: crate::storage::listed_view(output) },
    }
}

/// How a retrieval begins: it asks whether the document exists.
pub open spec fn get_begins(dir: Seq<char>, id: PromptId) -> Step<GetTask, FsRequestView, FoundView> {
    Step::Ask {
        task: GetTask::Probing { id },
        request: FsRequestView::Probe { path: prompt_path(dir, id) },
    }
}

/// How a retrieval goes on. Where the document does not exist, or has
/// vanished by the time it is opened, there is no record. A document that
/// cannot be decoded is a validation error.
pub open spec fn get_resumes(dir: Seq<char>, task: GetTask, reply: FsReplyView) -> Step<
    GetTask,
    FsRequestView,
    FoundView,
> {
    match task {
        GetTask::Probing { id } => match reply {
            FsReplyView::Probed { exists } => if exists {
                Step::Ask {
                    task: GetTask::Loading { id },
                    request: FsRequestView::Load { path: prompt_path(dir, id) },
                }
            } else {
                Step::Done { output: Ok(None) }
            },
            _ => Step::Done { output: Err(failure_of(Operation::Get, Some(id), reply)) },
        },
        GetTask::Loading { id } => match reply {
            FsReplyView::Loaded { prompt } => Step::Done { output: Ok(Some(prompt)) },
            FsReplyView::Failed { fault: FsFault::NotFound, detail } => Step::Done {
                output: Ok(None),
            },
            _ => Step::Done { output: Err(failure_of(Operation::Get, Some(id), reply)) },
        },
    }
}

/// How a removal begins: it asks whether the document exists.
pub open spec fn delete_begins(dir: Seq<char>, id: PromptId) -> Step<
    DeleteTask,
    FsRequestView,
    DeletedView,
> {
    Step::Ask {
        task: DeleteTask::Probing { id },
        request: FsRequestView::Probe { path: prompt_path(dir, id) },
    }
}

/// How a removal goes on. Where the document does not exist, or has
/// vanished by the time it is removed, no record existed.
pub open spec fn delete_resumes(dir: Seq<char>, task: DeleteTask, reply: FsReplyView) -> Step<
    DeleteTask,
    FsRequestView,
    DeletedView,
> {
    match task {
        DeleteTask::Probing { id } => match reply {
            FsReplyView::Probed { exists } => if exists {
                Step::Ask {
                    task: DeleteTask::Removing { id },
                    request: FsRequestView::Remove { path: prompt_path(dir, id) },
                }
            } else {
                Step::Done { output: Ok(false) }
            },
            _ => Step::Done { output: Err(failure_of(Operation::Delete, Some(id), reply)) },
        },
        DeleteTask::Removing { id } => match reply {
            FsReplyView::Completed => Step::Done { output: Ok(true) },
            FsReplyView::Failed { fault: FsFault::NotFound, detail } => Step::Done {
                output: Ok(false),
            },
            _ => Step::Done { output: Err(failure_of(Operation::Delete, Some(id), reply)) },
        },
    }
}

/// The request to write a prompt's document under its draft path.
pub open spec fn store_request(dir: Seq<char>, prompt: PromptView) -> FsRequestView {
    FsRequestView::Store { path: draft_path(dir, prompt.id), prompt }
}

/// How a save begins: it asks whether the directory exists.
pub open spec fn save_begins(dir: Seq<char>, prompt: PromptView) -> Step<
    SaveTaskView,
    FsRequestView,
    SavedView,
> {
    Step::Ask {
        task: SaveTaskView::ProbingDir { prompt },
        request: FsRequestView::Probe { path: dir },
    }
}

/// How a save goes on: the directory is created where it is missing, the
/// document is written under its draft path and then moved to its own
/// path in one step, so that no reader ever sees a document in part.
pub open spec fn save_resumes(dir: Seq<char>, task: SaveTaskView, reply: FsReplyView) -> Step<
    SaveTaskView,
    FsRequestView,
    SavedView,
> {
    match task {
        SaveTaskView::ProbingDir { prompt } => match reply {
            FsReplyView::Probed { exists } => if exists {
                Step::Ask {
                    task: SaveTaskView::Storing { id: prompt.id },
                    request: store_request(dir, prompt),
                }
            } else {
                Step::Ask {
                    task: SaveTaskView::MakingDir { prompt },
                    request: FsRequestView::MakeDir { path: dir },
                }
            },
            _ => Step::Done { output: Err(failure_of(Operation::Save, Some(prompt.id), reply)) },
        },
        SaveTaskView::MakingDir { prompt } => match reply {
            FsReplyView::Completed => Step::Ask {
                task: SaveTaskView::Storing { id: prompt.id },
                request: store_request(dir, prompt),
            },
            _ => Step::Done { output: Err(failure_of(Operation::Save, Some(prompt.id), reply)) },
        },
        SaveTaskView::Storing { id } => match reply {
            FsReplyView::Completed => Step::Ask {
                task: SaveTaskView::Publishing { id },
                request: FsRequestView::Rename {
                    from: draft_path(dir, id),
                    to: prompt_path(dir, id),
                },
            },
            _ => Step::Done { output: Err(failure_of(Operation::Save, Some(id), reply)) },
        },
        SaveTaskView::Publishing { id } => match reply {
            FsReplyView::Completed => Step::Done { output: Ok(()) },
            _ => Step::Done { output: Err(failure_of(Operation::Save, Some(id), reply)) },
        },
    }
}

/// The identifiers whose documents a listing loads, for the entries of a
/// scan: those of the regular files with the file name of a prompt. The
/// identifier of the first such entry stands last.
pub open spec fn pending_ids(entries: Seq<DirEntryView>) -> Seq<PromptId>
    decreases entries.len(),
{
    if entries.len() == 0 {
        Seq::empty()
    } else {
        let later = pending_ids(entries.drop_first());
        match recognized(entries.first().file_name) {
            Some(id) => if entries.first().is_file {
                later.push(id)
            } else {
                later
            },
            None => later,
        }
    }
}

/// What a listing does once it knows which documents are left to load and
/// which prompts it has found: it asks for the next document, or it is
/// done.
pub open spec fn list_continues(dir: Seq<char>, pending: Seq<PromptId>, found: Seq<PromptView>) -> Step<
    ListTaskView,
    FsRequestView,
    ListedView,
> {
    if pending.len() == 0 {
        Step::Done { output: Ok(found) }
    } else {
        Step::Ask {
            task: ListTaskView::Loading { pending, found },
            request: FsRequestView::Load { path: prompt_path(dir, pending.last()) },
        }
    }
}

/// How a listing begins: it asks for the entries of the directory.
pub open spec fn list_begins(dir: Seq<char>) -> Step<ListTaskView, FsRequestView, ListedView> {
    Step::Ask { task: ListTaskView::Scanning, request: FsRequestView::Scan { path: dir } }
}

/// How a listing goes on. A directory that does not exist holds no
/// prompts. A document that cannot be loaded is left out, and the listing
/// goes on with the next.
pub open spec fn list_resumes(dir: Seq<char>, task: ListTaskView, reply: FsReplyView) -> Step<
    ListTaskView,
    FsRequestView,
    ListedView,
> {
    match task {
        ListTaskView::Scanning => match reply {
            FsReplyView::Scanned { entries } => list_continues(
                dir,
                pending_ids(entries),
                Seq::empty(),
            ),
            FsReplyView::Failed { fault: FsFault::NotFound, detail } => Step::Done {
                output: Ok(Seq::empty()),
            },
            _ => Step::Done { output: Err(failure_of(Operation::List, None, reply)) },
        },
        ListTaskView::Loading { pending, found } => if pending.len() == 0 {
            Step::Done { output: Ok(found) }
        } else {
            match reply {
                FsReplyView::Loaded { prompt } => list_continues(
                    dir,
                    pending.drop_last(),
                    found.push(prompt),
                ),
                _ => list_continues(dir, pending.drop_last(), found),
            }
        },
    }
}

/// The path of the entry `name` of the directory `dir`.
fn join(dir: &str, name: &str) -> (path: String)
    ensures
        path@ == joined(dir@, name@),
{
    let length = dir.unicode_len();
    if length == 0 {
        name.to_owned()
    } else if dir.get_char(length - 1) == '/' {
        concat_text(dir, name)
    } else {
        proof {
            reveal_strlit("/");
            assert("/"@ =~= seq!['/']);
        }
        let with_separator = concat_text(dir, "/");
        concat_text(with_separator.as_str(), name)
    }
}

impl FileSystemStorage {
    /// A file store over the given directory.
    pub fn new(prompt_dir: &str) -> (storage: FileSystemStorage)
        ensures
            storage.prompt_dir@ == prompt_dir@,
    {
        FileSystemStorage { prompt_dir: prompt_dir.to_owned() }
    }

    /// The name of the file that holds the prompt with the given
    /// identifier: the identifier's canonical text and the document ending.
    pub fn file_name(id: &PromptId) -> (name: String)
        ensures
            name@ == file_name_of(*id),
    {
        let text = id.to_text();
        concat_text(text.as_str(), ".json")
    }

    /// The path of the document of the prompt with the given identifier.
    pub fn get_prompt_path(&self, id: &PromptId) -> (path: String)
        ensures
            path@ == prompt_path(self.prompt_dir@, *id),
    {
        let name = FileSystemStorage::file_name(id);
        join(self.prompt_dir.as_str(), name.as_str())
    }

    /// The path under which the document of the prompt with the given
    /// identifier is written before it takes its place.
    pub fn get_draft_path(&self, id: &PromptId) -> (path: String)
        ensures
            path@ == draft_path(self.prompt_dir@, *id),
    {
        let path = self.get_prompt_path(id);
        concat_text(path.as_str(), ".tmp")
    }

    /// The identifier of the prompt that a file of the given name holds, if
    /// the name is the file name of a prompt.
    pub fn recognize(file_name: &str) -> (id: Option<PromptId>)
        ensures
            id == recognized(file_name@),
    {
        let length = file_name.unicode_len();
        if length < 5 {
            return None;
        }
        let stem = file_name.substring_char(0, length - 5);
        let ending = file_name.substring_char(length - 5, length);
        if ending.to_owned() == ".json".to_owned() {
            PromptId::from_canonical(stem)
        } else {
            None
        }
    }

    /// The request that prepares the store: the directory is created
    /// unless it exists.
    pub fn prepare(&self) -> (request: FsRequest)
        ensures
            request@ == (FsRequestView::MakeDir { path: self.prompt_dir@ }),
    {
        FsRequest::MakeDir { path: copy_text(&self.prompt_dir) }
    }

    /// Begins the retrieval of the prompt with the given identifier.
    pub fn get_prompt(&self, id: &PromptId) -> (step: Step<GetTask, FsRequest, Found>)
        ensures
            get_step_view(step) == get_begins(self.prompt_dir@, *id),
    {
        Step::Ask {
            task: GetTask::Probing { id: *id },
            request: FsRequest::Probe { path: self.get_prompt_path(id) },
        }
    }

    /// Goes on with a retrieval, given the reply to its last request.
    pub fn resume_get_prompt(&self, task: GetTask, reply: FsReply) -> (step: Step<
        GetTask,
        FsRequest,
        Found,
    >)
        ensures
            get_step_view(step) == get_resumes(self.prompt_dir@, task, reply@),
    {
        match task {
            GetTask::Probing { id } => match reply {
                FsReply::Probed { exists } => {
                    if exists {
                        Step::Ask {
                            task: GetTask::Loading { id },
                            request: FsRequest::Load { path: self.get_prompt_path(&id) },
                        }
                    } else {
                        Step::Done { output: Ok(None) }
                    }
                },
                other => Step::Done { output: Err(failure(Operation::Get, Some(id), other)) },
            },
            GetTask::Loading { id } => match reply {
                FsReply::Loaded { prompt } => Step::Done { output: Ok(Some(prompt)) },
                FsReply::Failed { fault: FsFault::NotFound, detail } => Step::Done {
                    output: Ok(None),
                },
                other => Step::Done { output: Err(failure(Operation::Get, Some(id), other)) },
            },
        }
    }

    /// Begins the removal of the prompt with the given identifier.
    pub fn delete_prompt(&self, id: &PromptId) -> (step: Step<
        DeleteTask,
        FsRequest,
        Result<bool, StorageError>,
    >)
        ensures
            delete_step_view(step) == delete_begins(self.prompt_dir@, *id),
    {
        Step::Ask {
            task: DeleteTask::Probing { id: *id },
            request: FsRequest::Probe { path: self.get_prompt_path(id) },
        }
    }

    /// Goes on with a removal, given the reply to its last request.
    pub fn resume_delete_prompt(&self, task: DeleteTask, reply: FsReply) -> (step: Step<
        DeleteTask,
        FsRequest,
        Result<bool, StorageError>,
    >)
        ensures
            delete_step_view(step) == delete_resumes(self.prompt_dir@, task, reply@),
    {
        match task {
            DeleteTask::Probing { id } => match reply {
                FsReply::Probed { exists } => {
                    if exists {
                        Step::Ask {
                            task: DeleteTask::Removing { id },
                            request: FsRequest::Remove { path: self.get_prompt_path(&id) },
                        }
                    } else {
                        Step::Done { output: Ok(false) }
                    }
                },
                other => Step::Done { output: Err(failure(Operation::Delete, Some(id), other)) },
            },
            DeleteTask::Removing { id } => match reply {
                FsReply::Completed => Step::Done { output: Ok(true) },
                FsReply::Failed { fault: FsFault::NotFound, detail } => Step::Done {
                    output: Ok(false),
                },
                other => Step::Done { output: Err(failure(Operation::Delete, Some(id), other)) },
            },
        }
    }

    /// The request to write a prompt's document under its draft path.
    fn store(&self, prompt: Prompt) -> (request: FsRequest)
        ensures
            request@ == store_request(self.prompt_dir@, prompt@),
    {
        FsRequest::Store { path: self.get_draft_path(&prompt.id), prompt }
    }

    /// Begins the save of a prompt.
    pub fn save_prompt(&self, prompt: Prompt) -> (step: Step<
        SaveTask,
        FsRequest,
        Result<(), StorageError>,
    >)
        ensures
            save_step_view(step) == save_begins(self.prompt_dir@, prompt@),
    {
        Step::Ask {
            task: SaveTask::ProbingDir { prompt },
            request: FsRequest::Probe { path: copy_text(&self.prompt_dir) },
        }
    }

    /// Goes on with a save, given the reply to its last request.
    pub fn resume_save_prompt(&self, task: SaveTask, reply: FsReply) -> (step: Step<
        SaveTask,
        FsRequest,
        Result<(), StorageError>,
    >)
        ensures
            save_step_view(step) == save_resumes(self.prompt_dir@, task@, reply@),
    {
        match task {
            SaveTask::ProbingDir { prompt } => match reply {
                FsReply::Probed { exists } => {
                    if exists {
                        Step::Ask {
                            task: SaveTask::Storing { id: prompt.id },
                            request: self.store(prompt),
                        }
                    } else {
                        Step::Ask {
                            task: SaveTask::MakingDir { prompt },
                            request: FsRequest::MakeDir { path: copy_text(&self.prompt_dir) },
                        }
                    }
                },
                other => Step::Done {
                    output: Err(failure(Operation::Save, Some(prompt.id), other)),
                },
            },
            SaveTask::MakingDir { prompt } => match reply {
                FsReply::Completed => Step::Ask {
                    task: SaveTask::Storing { id: prompt.id },
                    request: self.store(prompt),
                },
                other => Step::Done {
                    output: Err(failure(Operation::Save, Some(prompt.id), other)),
                },
            },
            SaveTask::Storing { id } => match reply {
                FsReply::Completed => Step::Ask {
                    task: SaveTask::Publishing { id },
                    request: FsRequest::Rename {
                        from: self.get_draft_path(&id),
                        to: self.get_prompt_path(&id),
                    },
                },
                other => Step::Done { output: Err(failure(Operation::Save, Some(id), other)) },
            },
            SaveTask::Publishing { id } => match reply {
                FsReply::Completed => Step::Done { output: Ok(()) },
                other => Step::Done { output: Err(failure(Operation::Save, Some(id), other)) },
            },
        }
    }

    /// The identifiers whose documents a listing loads, for the entries of
    /// a scan.
    pub fn pending(entries: &Vec<DirEntry>) -> (ids: Vec<PromptId>)
        ensures
            ids@ == pending_ids(entries.deep_view()),
    {
        let mut ids: Vec<PromptId> = Vec::new();
        let mut index: usize = entries.len();
        assert(entries.deep_view().skip(index as int) =~= Seq::empty());
        while index > 0
            invariant
                index <= entries.len(),
                ids@ == pending_ids(entries.deep_view().skip(index as int)),
            decreases index,
        {
            index -= 1;
            let entry = &entries[index];
            proof {
                let later = entries.deep_view().skip(index as int);
                assert(later.drop_first() =~= entries.deep_view().skip(index + 1));
                assert(later.first() == entry@);
            }
            if entry.is_file {
                match FileSystemStorage::recognize(entry.file_name.as_str()) {
                    Some(id) => {
                        ids.push(id);
                    },
                    None => {},
                }
            }
        }
        assert(entries.deep_view().skip(0) =~= entries.deep_view());
        ids
    }

    /// What a listing does once it knows which documents are left to load
    /// and which prompts it has found.
    fn continue_listing(&self, pending: Vec<PromptId>, found: Vec<Prompt>) -> (step: Step<
        ListTask,
        FsRequest,
        Result<Vec<Prompt>, StorageError>,
    >)
        ensures
            list_step_view(step) == list_continues(self.prompt_dir@, pending@, found.deep_view()),
    {
        if pending.len() == 0 {
            Step::Done { output: Ok(found) }
        } else {
            let path = self.get_prompt_path(&pending[pending.len() - 1]);
            Step::Ask { task: ListTask::Loading { pending, found }, request: FsRequest::Load { path } }
        }
    }

    /// Begins a listing of all prompts.
    pub fn list_prompts(&self) -> (step: Step<
        ListTask,
        FsRequest,
        Result<Vec<Prompt>, StorageError>,
    >)
        ensures
            list_step_view(step) == list_begins(self.prompt_dir@),
    {
        Step::Ask {
            task: ListTask::Scanning,
            request: FsRequest::Scan { path: copy_text(&self.prompt_dir) },
        }
    }

    /// Goes on with a listing, given the reply to its last request.
    pub fn resume_list_prompts(&self, task: ListTask, reply: FsReply) -> (step: Step<
        ListTask,
        FsRequest,
        Result<Vec<Prompt>, StorageError>,
    >)
        ensures
            list_step_view(step) == list_resumes(self.prompt_dir@, task@, reply@),
    {
        match task {
            ListTask::Scanning => match reply {
                FsReply::Scanned { entries } => {
                    let found: Vec<Prompt> = Vec::new();
                    assert(found.deep_view() =~= Seq::empty());
                    self.continue_listing(FileSystemStorage::pending(&entries), found)
                },
                FsReply::Failed { fault: FsFault::NotFound, detail } => {
                    let found: Vec<Prompt> = Vec::new();
                    assert(found.deep_view() =~= Seq::empty());
                    Step::Done { output: Ok(found) }
                },
                other => Step::Done { output: Err(failure(Operation::List, None, other)) },
            },
            ListTask::Loading { pending, found } => {
                let mut pending = pending;
                let mut found = found;
                if pending.len() == 0 {
                    Step::Done { output: Ok(found) }
                } else {
                    pending.pop();
                    match reply {
                        FsReply::Loaded { prompt } => {
                            let ghost before = found.deep_view();
                            found.push(prompt);
                            assert(found.deep_view() =~= before.push(prompt@));
                        },
                        _ => {},
                    }
                    self.continue_listing(pending, found)
                }
            },
        }
    }
}

} // verus!
