use std::collections::BTreeMap;

use mcp_prompts_rs::models::ident::PromptId;
use mcp_prompts_rs::models::prompt::Prompt;
use mcp_prompts_rs::storage::file_steps::{failure, DirEntry, FsFault, FsReply, FsRequest};
use mcp_prompts_rs::storage::filesystem::{DeleteTask, FileSystemStorage, GetTask, ListTask, SaveTask};
use mcp_prompts_rs::storage::{ErrorKind, Operation, Step, StorageError};

const ID_A: PromptId = PromptId { bits: 0xa1a2a3a4_b1b2_c1c2_d1d2_d3d4d5d6d7d8 };
const ID_B: PromptId = PromptId { bits: 0x00000000_0000_4000_8000_000000000001 };
const NAME_A: &str = "a1a2a3a4-b1b2-c1c2-d1d2-d3d4d5d6d7d8.json";
const NAME_B: &str = "00000000-0000-4000-8000-000000000001.json";

fn prompt(id: PromptId, name: &str) -> Prompt {
    Prompt {
        id,
        name: name.to_string(),
        content: format!("content of {}", name),
        category: None,
        variables: Some(vec!["a".to_string(), "b".to_string(), "c".to_string()]),
        description: None,
    }
}

/// What stands in a file.
#[derive(Clone)]
enum Content {
    Document(Prompt),
    Damaged,
}

/// A file system in memory that does what it is asked.
struct Disk {
    dir: String,
    dir_exists: bool,
    files: BTreeMap<String, Content>,
    requests: Vec<FsRequest>,
}

impl Disk {
    fn empty(dir: &str) -> Disk {
        Disk { dir: dir.to_string(), dir_exists: false, files: BTreeMap::new(), requests: Vec::new() }
    }

    fn missing() -> FsReply {
        FsReply::Failed { fault: FsFault::NotFound, detail: "no such file".to_string() }
    }

    fn serve(&mut self, request: FsRequest) -> FsReply {
        self.requests.push(request.clone());
        match request {
            FsRequest::Probe { path } => FsReply::Probed {
                exists: if path == self.dir { self.dir_exists } else { self.files.contains_key(&path) },
            },
            FsRequest::Load { path } => match self.files.get(&path) {
                Some(Content::Document(prompt)) => FsReply::Loaded { prompt: prompt.clone() },
                Some(Content::Damaged) => FsReply::Failed {
                    fault: FsFault::Format,
                    detail: "expected value at line 1 column 1".to_string(),
                },
                None => Disk::missing(),
            },
            FsRequest::MakeDir { path } => {
                if path == self.dir {
                    self.dir_exists = true;
                }
                FsReply::Completed
            }
            FsRequest::Store { path, prompt } => {
                if self.dir_exists {
                    self.files.insert(path, Content::Document(prompt));
                    FsReply::Completed
                } else {
                    Disk::missing()
                }
            }
            FsRequest::Rename { from, to } => match self.files.remove(&from) {
                Some(content) => {
                    self.files.insert(to, content);
                    FsReply::Completed
                }
                None => Disk::missing(),
            },
            FsRequest::Remove { path } => match self.files.remove(&path) {
                Some(_) => FsReply::Completed,
                None => Disk::missing(),
            },
            FsRequest::Scan { path } => {
                if path == self.dir && self.dir_exists {
                    let prefix = format!("{}/", self.dir);
                    let entries = self
                        .files
                        .keys()
                        .filter(|key| key.starts_with(&prefix))
                        .map(|key| DirEntry { file_name: key[prefix.len()..].to_string(), is_file: true })
                        .collect();
                    FsReply::Scanned { entries }
                } else {
                    Disk::missing()
                }
            }
        }
    }
}

fn get(store: &FileSystemStorage, disk: &mut Disk, id: PromptId) -> Result<Option<Prompt>, StorageError> {
    let mut step = store.get_prompt(&id);
    loop {
        match step {
            Step::Ask { task, request } => step = store.resume_get_prompt(task, disk.serve(request)),
            Step::Done { output } => return output,
        }
    }
}

fn save(store: &FileSystemStorage, disk: &mut Disk, prompt: &Prompt) -> Result<(), StorageError> {
    let mut step = store.save_prompt(prompt.clone());
    loop {
        match step {
            Step::Ask { task, request } => step = store.resume_save_prompt(task, disk.serve(request)),
            Step::Done { output } => return output,
        }
    }
}

fn delete(store: &FileSystemStorage, disk: &mut Disk, id: PromptId) -> Result<bool, StorageError> {
    let mut step = store.delete_prompt(&id);
    loop {
        match step {
            Step::Ask { task, request } => step = store.resume_delete_prompt(task, disk.serve(request)),
            Step::Done { output } => return output,
        }
    }
}

fn list(store: &FileSystemStorage, disk: &mut Disk) -> Result<Vec<Prompt>, StorageError> {
    let mut step = store.list_prompts();
    loop {
        match step {
            Step::Ask { task, request } => step = store.resume_list_prompts(task, disk.serve(request)),
            Step::Done { output } => return output,
        }
    }
}

fn failed(fault: FsFault, detail: &str) -> FsReply {
    FsReply::Failed { fault, detail: detail.to_string() }
}

#[test]
fn new_keeps_the_directory() {
    assert_eq!(FileSystemStorage::new("./prompts").prompt_dir, "./prompts");
    assert_eq!(FileSystemStorage::new("").prompt_dir, "");
}

#[test]
fn file_name_is_the_canonical_text_with_the_document_ending() {
    assert_eq!(FileSystemStorage::file_name(&ID_A), NAME_A);
    assert_eq!(FileSystemStorage::file_name(&PromptId { bits: 0 }), "00000000-0000-0000-0000-000000000000.json");
}

#[test]
fn path_joins_directory_and_file_name() {
    assert_eq!(FileSystemStorage::new("prompts").get_prompt_path(&ID_A), format!("prompts/{}", NAME_A));
    assert_eq!(FileSystemStorage::new("prompts/").get_prompt_path(&ID_A), format!("prompts/{}", NAME_A));
    assert_eq!(FileSystemStorage::new("/").get_prompt_path(&ID_A), format!("/{}", NAME_A));
    assert_eq!(FileSystemStorage::new("").get_prompt_path(&ID_A), NAME_A);
    assert_eq!(FileSystemStorage::new("/var/データ").get_prompt_path(&ID_A), format!("/var/データ/{}", NAME_A));
}

#[test]
fn path_agrees_with_the_standard_library() {
    for dir in ["prompts", "prompts/", "/", "", "a/b/c"] {
        let expected = std::path::Path::new(dir).join(NAME_A);
        assert_eq!(
            std::path::PathBuf::from(FileSystemStorage::new(dir).get_prompt_path(&ID_A)),
            expected
        );
    }
}

#[test]
fn draft_path_is_the_path_with_one_more_ending() {
    assert_eq!(
        FileSystemStorage::new("prompts").get_draft_path(&ID_A),
        format!("prompts/{}.tmp", NAME_A)
    );
}

#[test]
fn distinct_identifiers_have_distinct_paths() {
    let store = FileSystemStorage::new("prompts");
    assert_ne!(store.get_prompt_path(&ID_A), store.get_prompt_path(&ID_B));
    assert_ne!(store.get_draft_path(&ID_A), store.get_draft_path(&ID_B));
    assert_ne!(store.get_draft_path(&ID_A), store.get_prompt_path(&ID_A));
}

#[test]
fn recognize_reads_the_file_names_that_the_store_writes() {
    assert_eq!(FileSystemStorage::recognize(NAME_A), Some(ID_A));
    assert_eq!(FileSystemStorage::recognize(NAME_B), Some(ID_B));
    assert_eq!(FileSystemStorage::recognize(&FileSystemStorage::file_name(&PromptId { bits: u128::MAX })), Some(PromptId { bits: u128::MAX }));
}

#[test]
fn recognize_rejects_every_other_name() {
    assert_eq!(FileSystemStorage::recognize(""), None);
    assert_eq!(FileSystemStorage::recognize(".json"), None);
    assert_eq!(FileSystemStorage::recognize("json"), None);
    assert_eq!(FileSystemStorage::recognize("notes.json"), None);
    assert_eq!(FileSystemStorage::recognize("a1a2a3a4-b1b2-c1c2-d1d2-d3d4d5d6d7d8"), None);
    assert_eq!(FileSystemStorage::recognize("a1a2a3a4-b1b2-c1c2-d1d2-d3d4d5d6d7d8.txt"), None);
    assert_eq!(FileSystemStorage::recognize("a1a2a3a4-b1b2-c1c2-d1d2-d3d4d5d6d7d8.JSON"), None);
    assert_eq!(FileSystemStorage::recognize("a1a2a3a4-b1b2-c1c2-d1d2-d3d4d5d6d7d8.json.tmp"), None);
    assert_eq!(FileSystemStorage::recognize("A1A2A3A4-B1B2-C1C2-D1D2-D3D4D5D6D7D8.json"), None);
    assert_eq!(FileSystemStorage::recognize("a1a2a3a4b1b2c1c2d1d2d3d4d5d6d7d8.json"), None);
    assert_eq!(FileSystemStorage::recognize("データ.json"), None);
}

#[test]
fn prepare_asks_for_the_directory() {
    assert_eq!(
        FileSystemStorage::new("prompts").prepare(),
        FsRequest::MakeDir { path: "prompts".to_string() }
    );
}

#[test]
fn get_asks_whether_the_document_exists_first() {
    let store = FileSystemStorage::new("prompts");
    match store.get_prompt(&ID_A) {
        Step::Ask { task, request } => {
            assert_eq!(task, GetTask::Probing { id: ID_A });
            assert_eq!(request, FsRequest::Probe { path: format!("prompts/{}", NAME_A) });
        }
        Step::Done { .. } => panic!("a retrieval does not end before it asked"),
    }
}

#[test]
fn get_of_a_missing_document_finds_nothing() {
    let store = FileSystemStorage::new("prompts");
    let step = store.resume_get_prompt(GetTask::Probing { id: ID_A }, FsReply::Probed { exists: false });
    assert!(matches!(step, Step::Done { output: Ok(None) }));
}

#[test]
fn get_loads_the_document_that_exists() {
    let store = FileSystemStorage::new("prompts");
    match store.resume_get_prompt(GetTask::Probing { id: ID_A }, FsReply::Probed { exists: true }) {
        Step::Ask { task, request } => {
            assert_eq!(task, GetTask::Loading { id: ID_A });
            assert_eq!(request, FsRequest::Load { path: format!("prompts/{}", NAME_A) });
        }
        Step::Done { .. } => panic!("the document is still to be loaded"),
    }
    let loaded = prompt(ID_A, "a");
    match store.resume_get_prompt(GetTask::Loading { id: ID_A }, FsReply::Loaded { prompt: loaded.clone() }) {
        Step::Done { output } => assert_eq!(output, Ok(Some(loaded))),
        Step::Ask { .. } => panic!("the retrieval is done"),
    }
}

#[test]
fn get_of_a_document_that_vanished_finds_nothing() {
    let store = FileSystemStorage::new("prompts");
    let step = store.resume_get_prompt(GetTask::Loading { id: ID_A }, failed(FsFault::NotFound, "gone"));
    assert!(matches!(step, Step::Done { output: Ok(None) }));
}

#[test]
fn get_of_a_damaged_document_is_a_validation_error() {
    let store = FileSystemStorage::new("prompts");
    match store.resume_get_prompt(GetTask::Loading { id: ID_A }, failed(FsFault::Format, "expected value")) {
        Step::Done { output: Err(error) } => {
            assert_eq!(error.kind, ErrorKind::Validation);
            assert_eq!(error.operation, Operation::Get);
            assert_eq!(error.id, Some(ID_A));
            assert_eq!(error.cause, "expected value");
            assert!(error.context.is_empty());
        }
        _ => panic!("a damaged document is a failure"),
    }
}

#[test]
fn get_of_an_unreadable_document_is_an_io_error() {
    let store = FileSystemStorage::new("prompts");
    match store.resume_get_prompt(GetTask::Loading { id: ID_A }, failed(FsFault::Other, "permission denied")) {
        Step::Done { output: Err(error) } => {
            assert_eq!(error.kind, ErrorKind::Io);
            assert_eq!(error.operation, Operation::Get);
            assert_eq!(error.id, Some(ID_A));
            assert_eq!(error.cause, "permission denied");
        }
        _ => panic!("an unreadable document is a failure"),
    }
}

#[test]
fn a_reply_that_does_not_answer_the_request_is_an_io_error() {
    let store = FileSystemStorage::new("prompts");
    match store.resume_get_prompt(GetTask::Probing { id: ID_A }, FsReply::Completed) {
        Step::Done { output: Err(error) } => {
            assert_eq!(error.kind, ErrorKind::Io);
            assert_eq!(error.cause, "unexpected reply from the file system");
        }
        _ => panic!("the reply does not answer the request"),
    }
    match store.resume_delete_prompt(DeleteTask::Removing { id: ID_A }, FsReply::Probed { exists: true }) {
        Step::Done { output: Err(error) } => {
            assert_eq!(error.kind, ErrorKind::Io);
            assert_eq!(error.operation, Operation::Delete);
            assert_eq!(error.cause, "unexpected reply from the file system");
        }
        _ => panic!("the reply does not answer the request"),
    }
}

#[test]
fn failure_tells_format_faults_from_the_others() {
    let error = failure(Operation::Save, Some(ID_A), failed(FsFault::Format, "cannot encode"));
    assert_eq!(error.kind, ErrorKind::Validation);
    assert_eq!(error.cause, "cannot encode");
    let error = failure(Operation::Save, None, failed(FsFault::NotFound, "gone"));
    assert_eq!(error.kind, ErrorKind::Io);
    assert_eq!(error.id, None);
    let error = failure(Operation::List, None, failed(FsFault::Other, "busy"));
    assert_eq!(error.kind, ErrorKind::Io);
    assert_eq!(error.operation, Operation::List);
}

#[test]
fn save_takes_four_steps_where_the_directory_is_missing() {
    let store = FileSystemStorage::new("prompts");
    let mut disk = Disk::empty("prompts");
    let saved = prompt(ID_A, "a");
    assert_eq!(save(&store, &mut disk, &saved), Ok(()));
    assert_eq!(
        disk.requests,
        vec![
            FsRequest::Probe { path: "prompts".to_string() },
            FsRequest::MakeDir { path: "prompts".to_string() },
            FsRequest::Store { path: format!("prompts/{}.tmp", NAME_A), prompt: saved.clone() },
            FsRequest::Rename {
                from: format!("prompts/{}.tmp", NAME_A),
                to: format!("prompts/{}", NAME_A),
            },
        ]
    );
}

#[test]
fn save_takes_three_steps_where_the_directory_exists() {
    let store = FileSystemStorage::new("prompts");
    let mut disk = Disk::empty("prompts");
    disk.dir_exists = true;
    let saved = prompt(ID_A, "a");
    assert_eq!(save(&store, &mut disk, &saved), Ok(()));
    assert_eq!(disk.requests.len(), 3);
    assert_eq!(disk.requests[0], FsRequest::Probe { path: "prompts".to_string() });
    assert!(matches!(disk.requests[1], FsRequest::Store { .. }));
    assert!(matches!(disk.requests[2], FsRequest::Rename { .. }));
    assert_eq!(disk.files.len(), 1);
    assert!(disk.files.contains_key(&format!("prompts/{}", NAME_A)));
}

#[test]
fn save_ends_with_the_failure_of_any_step() {
    let store = FileSystemStorage::new("prompts");
    let saved = prompt(ID_A, "a");
    let tasks = vec![
        SaveTask::ProbingDir { prompt: saved.clone() },
        SaveTask::MakingDir { prompt: saved.clone() },
        SaveTask::Storing { id: ID_A },
        SaveTask::Publishing { id: ID_A },
    ];
    for task in tasks {
        match store.resume_save_prompt(task, failed(FsFault::Other, "disk full")) {
            Step::Done { output: Err(error) } => {
                assert_eq!(error.kind, ErrorKind::Io);
                assert_eq!(error.operation, Operation::Save);
                assert_eq!(error.id, Some(ID_A));
                assert_eq!(error.cause, "disk full");
            }
            _ => panic!("a failed step ends the save"),
        }
    }
}

#[test]
fn save_of_a_prompt_that_cannot_be_encoded_is_a_validation_error() {
    let store = FileSystemStorage::new("prompts");
    match store.resume_save_prompt(SaveTask::Storing { id: ID_A }, failed(FsFault::Format, "cannot encode")) {
        Step::Done { output: Err(error) } => assert_eq!(error.kind, ErrorKind::Validation),
        _ => panic!("a failed step ends the save"),
    }
}

#[test]
fn a_failed_save_leaves_the_stored_record_as_it_was() {
    let store = FileSystemStorage::new("prompts");
    let mut disk = Disk::empty("prompts");
    let first = prompt(ID_A, "first");
    assert_eq!(save(&store, &mut disk, &first), Ok(()));

    let second = prompt(ID_A, "second");
    let mut step = store.save_prompt(second);
    for _ in 0..2 {
        step = match step {
            Step::Ask { task, request } => {
                let reply = disk.serve(request);
                store.resume_save_prompt(task, reply)
            }
            Step::Done { .. } => panic!("the save is not done yet"),
        };
    }
    match step {
        Step::Ask { task, request } => {
            assert!(matches!(request, FsRequest::Rename { .. }));
            assert_eq!(get(&store, &mut disk, ID_A), Ok(Some(first.clone())));
            let step = store.resume_save_prompt(task, failed(FsFault::Other, "interrupted"));
            assert!(matches!(step, Step::Done { output: Err(_) }));
        }
        Step::Done { .. } => panic!("the draft is still to be moved"),
    }
    assert_eq!(get(&store, &mut disk, ID_A), Ok(Some(first)));
}

#[test]
fn saved_prompt_is_retrieved_as_it_was_saved() {
    let store = FileSystemStorage::new("prompts");
    let mut disk = Disk::empty("prompts");
    let saved = prompt(ID_A, "a");
    assert_eq!(save(&store, &mut disk, &saved), Ok(()));
    assert_eq!(get(&store, &mut disk, ID_A), Ok(Some(saved)));
}

#[test]
fn variables_keep_their_order_through_the_file_store() {
    let store = FileSystemStorage::new("prompts");
    let mut disk = Disk::empty("prompts");
    let saved = prompt(ID_A, "a");
    assert_eq!(save(&store, &mut disk, &saved), Ok(()));
    let loaded = get(&store, &mut disk, ID_A).unwrap().unwrap();
    assert_eq!(loaded.variables, Some(vec!["a".to_string(), "b".to_string(), "c".to_string()]));
}

#[test]
fn identifier_that_was_never_saved_is_absent() {
    let store = FileSystemStorage::new("prompts");
    let mut disk = Disk::empty("prompts");
    assert_eq!(get(&store, &mut disk, ID_A), Ok(None));
    assert_eq!(delete(&store, &mut disk, ID_A), Ok(false));
    assert_eq!(save(&store, &mut disk, &prompt(ID_B, "b")), Ok(()));
    assert_eq!(get(&store, &mut disk, ID_A), Ok(None));
    assert_eq!(delete(&store, &mut disk, ID_A), Ok(false));
    assert_eq!(disk.files.len(), 1);
}

#[test]
fn saving_twice_leaves_what_saving_once_leaves() {
    let store = FileSystemStorage::new("prompts");
    let saved = prompt(ID_A, "a");
    let mut once = Disk::empty("prompts");
    assert_eq!(save(&store, &mut once, &saved), Ok(()));
    let mut twice = Disk::empty("prompts");
    assert_eq!(save(&store, &mut twice, &saved), Ok(()));
    assert_eq!(save(&store, &mut twice, &saved), Ok(()));
    assert_eq!(once.dir_exists, twice.dir_exists);
    assert_eq!(once.files.keys().collect::<Vec<_>>(), twice.files.keys().collect::<Vec<_>>());
    assert_eq!(get(&store, &mut once, ID_A), get(&store, &mut twice, ID_A));
    assert_eq!(list(&store, &mut once), list(&store, &mut twice));
}

#[test]
fn a_later_save_replaces_the_record_whole() {
    let store = FileSystemStorage::new("prompts");
    let mut disk = Disk::empty("prompts");
    let mut first = prompt(ID_A, "first");
    first.category = Some("kept?".to_string());
    first.description = Some("kept?".to_string());
    let mut second = prompt(ID_A, "second");
    second.variables = None;
    assert_eq!(save(&store, &mut disk, &first), Ok(()));
    assert_eq!(save(&store, &mut disk, &second), Ok(()));
    assert_eq!(get(&store, &mut disk, ID_A), Ok(Some(second)));
    assert_eq!(list(&store, &mut disk).unwrap().len(), 1);
}

#[test]
fn delete_removes_the_record_once() {
    let store = FileSystemStorage::new("prompts");
    let mut disk = Disk::empty("prompts");
    assert_eq!(save(&store, &mut disk, &prompt(ID_A, "a")), Ok(()));
    assert_eq!(delete(&store, &mut disk, ID_A), Ok(true));
    assert_eq!(get(&store, &mut disk, ID_A), Ok(None));
    assert_eq!(delete(&store, &mut disk, ID_A), Ok(false));
}

#[test]
fn delete_of_a_document_that_vanished_reports_no_record() {
    let store = FileSystemStorage::new("prompts");
    let step = store.resume_delete_prompt(DeleteTask::Removing { id: ID_A }, failed(FsFault::NotFound, "gone"));
    assert!(matches!(step, Step::Done { output: Ok(false) }));
    let step = store.resume_delete_prompt(DeleteTask::Removing { id: ID_A }, failed(FsFault::Other, "busy"));
    assert!(matches!(step, Step::Done { output: Err(_) }));
}

#[test]
fn list_of_an_empty_store_is_empty() {
    let store = FileSystemStorage::new("prompts");
    let mut disk = Disk::empty("prompts");
    assert_eq!(list(&store, &mut disk), Ok(vec![]));
    disk.dir_exists = true;
    assert_eq!(list(&store, &mut disk), Ok(vec![]));
}

#[test]
fn list_returns_every_saved_prompt() {
    let store = FileSystemStorage::new("prompts");
    let mut disk = Disk::empty("prompts");
    let mut saved = Vec::new();
    for n in 0..20u128 {
        let one = prompt(PromptId { bits: n * 0x1_0000_0000_0000_0001 + 5 }, &format!("p{}", n));
        assert_eq!(save(&store, &mut disk, &one), Ok(()));
        saved.push(one);
    }
    let listed = list(&store, &mut disk).unwrap();
    assert_eq!(listed.len(), 20);
    for one in &saved {
        assert!(listed.contains(one));
        assert_eq!(get(&store, &mut disk, one.id), Ok(Some(one.clone())));
    }
}

#[test]
fn list_keeps_the_order_of_the_scan() {
    let store = FileSystemStorage::new("prompts");
    let entries = vec![
        DirEntry { file_name: NAME_A.to_string(), is_file: true },
        DirEntry { file_name: NAME_B.to_string(), is_file: true },
    ];
    assert_eq!(FileSystemStorage::pending(&entries), vec![ID_B, ID_A]);
    let mut disk = Disk::empty("prompts");
    assert_eq!(save(&store, &mut disk, &prompt(ID_A, "a")), Ok(()));
    assert_eq!(save(&store, &mut disk, &prompt(ID_B, "b")), Ok(()));
    let mut step = store.resume_list_prompts(ListTask::Scanning, FsReply::Scanned { entries });
    let mut loads = Vec::new();
    let listed = loop {
        match step {
            Step::Ask { task, request } => {
                loads.push(request.clone());
                step = store.resume_list_prompts(task, disk.serve(request));
            }
            Step::Done { output } => break output.unwrap(),
        }
    };
    assert_eq!(
        loads,
        vec![
            FsRequest::Load { path: format!("prompts/{}", NAME_A) },
            FsRequest::Load { path: format!("prompts/{}", NAME_B) },
        ]
    );
    assert_eq!(listed, vec![prompt(ID_A, "a"), prompt(ID_B, "b")]);
}

#[test]
fn list_skips_what_is_no_document_of_a_prompt() {
    let entries = vec![
        DirEntry { file_name: "notes.txt".to_string(), is_file: true },
        DirEntry { file_name: NAME_A.to_string(), is_file: false },
        DirEntry { file_name: format!("{}.tmp", NAME_B), is_file: true },
        DirEntry { file_name: NAME_B.to_string(), is_file: true },
        DirEntry { file_name: "A1A2A3A4-B1B2-C1C2-D1D2-D3D4D5D6D7D8.json".to_string(), is_file: true },
    ];
    assert_eq!(FileSystemStorage::pending(&entries), vec![ID_B]);
    assert_eq!(FileSystemStorage::pending(&Vec::new()), Vec::<PromptId>::new());
}

#[test]
fn list_leaves_out_a_damaged_document_and_goes_on() {
    let store = FileSystemStorage::new("prompts");
    let mut disk = Disk::empty("prompts");
    assert_eq!(save(&store, &mut disk, &prompt(ID_A, "a")), Ok(()));
    assert_eq!(save(&store, &mut disk, &prompt(ID_B, "b")), Ok(()));
    disk.files.insert(format!("prompts/{}", NAME_B), Content::Damaged);
    assert_eq!(list(&store, &mut disk), Ok(vec![prompt(ID_A, "a")]));
    assert!(matches!(get(&store, &mut disk, ID_B), Err(error) if error.kind == ErrorKind::Validation));
}

#[test]
fn list_fails_where_the_directory_cannot_be_read() {
    let store = FileSystemStorage::new("prompts");
    match store.resume_list_prompts(ListTask::Scanning, failed(FsFault::Other, "permission denied")) {
        Step::Done { output: Err(error) } => {
            assert_eq!(error.kind, ErrorKind::Io);
            assert_eq!(error.operation, Operation::List);
            assert_eq!(error.id, None);
            assert_eq!(error.cause, "permission denied");
        }
        _ => panic!("the directory cannot be read"),
    }
    let step = store.resume_list_prompts(ListTask::Scanning, failed(FsFault::NotFound, "no directory"));
    assert!(matches!(step, Step::Done { output: Ok(found) } if found.is_empty()));
}

#[test]
fn list_with_nothing_left_to_load_is_done() {
    let store = FileSystemStorage::new("prompts");
    let found = vec![prompt(ID_A, "a")];
    let task = ListTask::Loading { pending: Vec::new(), found: found.clone() };
    match store.resume_list_prompts(task, FsReply::Loaded { prompt: prompt(ID_B, "b") }) {
        Step::Done { output } => assert_eq!(output, Ok(found)),
        Step::Ask { .. } => panic!("nothing is left to load"),
    }
}

#[test]
fn saves_under_different_identifiers_leave_each_other_alone() {
    let store = FileSystemStorage::new("prompts");
    let mut disk = Disk::empty("prompts");
    let a = prompt(ID_A, "a");
    let b = prompt(ID_B, "b");
    let mut step_a = store.save_prompt(a.clone());
    let mut step_b = store.save_prompt(b.clone());
    let mut done = 0;
    while done < 2 {
        done = 0;
        step_a = match step_a {
            Step::Ask { task, request } => store.resume_save_prompt(task, disk.serve(request)),
            Step::Done { output } => {
                assert_eq!(output, Ok(()));
                done += 1;
                Step::Done { output }
            }
        };
        step_b = match step_b {
            Step::Ask { task, request } => store.resume_save_prompt(task, disk.serve(request)),
            Step::Done { output } => {
                assert_eq!(output, Ok(()));
                done += 1;
                Step::Done { output }
            }
        };
    }
    assert_eq!(get(&store, &mut disk, ID_A), Ok(Some(a)));
    assert_eq!(get(&store, &mut disk, ID_B), Ok(Some(b)));
    assert_eq!(list(&store, &mut disk).unwrap().len(), 2);
}

#[test]
fn two_saves_succeed_in_every_order_of_their_steps() {
    let store = FileSystemStorage::new("prompts");
    let a = prompt(ID_A, "a");
    let b = prompt(ID_B, "b");
    let other = prompt(PromptId { bits: 77 }, "other");
    for schedule in 0u32..256 {
        if schedule.count_ones() != 4 {
            continue;
        }
        let mut disk = Disk::empty("prompts");
        assert_eq!(save(&store, &mut disk, &other), Ok(()));
        disk.dir_exists = schedule % 2 == 0;
        let mut steps = vec![Some(store.save_prompt(a.clone())), Some(store.save_prompt(b.clone()))];
        for turn in 0..8 {
            let which = if (schedule >> turn) & 1 == 1 { 0 } else { 1 };
            let step = steps[which].take().unwrap();
            steps[which] = Some(match step {
                Step::Ask { task, request } => store.resume_save_prompt(task, disk.serve(request)),
                done => done,
            });
        }
        for step in steps {
            assert!(matches!(step, Some(Step::Done { output: Ok(()) })));
        }
        assert_eq!(get(&store, &mut disk, ID_A), Ok(Some(a.clone())));
        assert_eq!(get(&store, &mut disk, ID_B), Ok(Some(b.clone())));
        assert_eq!(get(&store, &mut disk, other.id), Ok(Some(other.clone())));
        assert_eq!(disk.files.len(), 3);
    }
}

#[test]
fn many_saves_succeed_in_every_order_of_their_steps() {
    let store = FileSystemStorage::new("prompts");
    let count = 5usize;
    let prompts: Vec<Prompt> =
        (0..count).map(|n| prompt(PromptId { bits: 1000 + n as u128 }, &format!("p{}", n))).collect();
    let mut seed: u64 = 0x2545_f491_4f6c_dd1d;
    for _ in 0..200 {
        let mut disk = Disk::empty("prompts");
        let mut steps: Vec<_> = prompts.iter().map(|one| Some(store.save_prompt(one.clone()))).collect();
        let mut turns = vec![0usize; count];
        while turns.iter().any(|taken| *taken < 4) {
            seed ^= seed << 13;
            seed ^= seed >> 7;
            seed ^= seed << 17;
            let which = (seed % count as u64) as usize;
            turns[which] += 1;
            let step = steps[which].take().unwrap();
            steps[which] = Some(match step {
                Step::Ask { task, request } => store.resume_save_prompt(task, disk.serve(request)),
                done => done,
            });
        }
        for step in steps {
            assert!(matches!(step, Some(Step::Done { output: Ok(()) })));
        }
        for one in &prompts {
            assert_eq!(get(&store, &mut disk, one.id), Ok(Some(one.clone())));
        }
        let listed = list(&store, &mut disk).unwrap();
        assert_eq!(listed.len(), count);
        for one in &prompts {
            assert!(listed.contains(one));
        }
    }
}
