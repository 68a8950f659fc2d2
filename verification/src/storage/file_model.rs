//! The file store against a file system that does what it is asked: what
//! each operation then returns and leaves behind.

use crate::models::ident::{canonical_text, lemma_canonical_text_injective, PromptId};
use crate::models::prompt::PromptView;
use crate::storage::file_steps::{DirEntryView, FsFault, FsReplyView, FsRequestView};
use crate::storage::filesystem::{
    delete_begins, delete_resumes, draft_path, file_name_of, get_begins, get_resumes, joined,
    list_begins, list_continues, list_resumes, pending_ids, prompt_path, save_begins,
    save_resumes, DeleteTask, DeletedView, FoundView, GetTask, ListTaskView, ListedView,
    SaveTaskView, SavedView,
};
use crate::storage::{ErrorKind, Step, StorageErrorView};
use vstd::prelude::*;

verus! {

/// What a file holds, as far as the store can tell.
pub enum FileContent {
    /// The document of a prompt.
    Document(PromptView),
    /// Anything that cannot be decoded.
    Damaged,
}

/// The part of a file system that a file store works on: whether its
/// directory exists, and the files by their paths.
pub struct Disk {
    pub dir_exists: bool,
    pub files: Map<Seq<char>, FileContent>,
}

/// A scan reports each entry of the directory once, and reports as regular
/// files exactly the files that stand in the directory.
pub open spec fn is_scan_of(dir: Seq<char>, disk: Disk, entries: Seq<DirEntryView>) -> bool {
    &&& forall|i: int, j: int|
        0 <= i < j < entries.len() ==> entries[i].file_name != entries[j].file_name
    &&& forall|i: int|
        0 <= i < entries.len() && entries[i].is_file ==> disk.files.contains_key(
            joined(dir, #[trigger] entries[i].file_name),
        )
    &&& forall|name: Seq<char>| #[trigger]
        disk.files.contains_key(joined(dir, name)) ==> exists|i: int|
            0 <= i < entries.len() && entries[i].is_file && #[trigger] entries[i].file_name == name
}

/// What the file system answers to a request, `entries` being what a scan
/// of the directory reports.
pub open spec fn reply_to(
    dir: Seq<char>,
    disk: Disk,
    request: FsRequestView,
    entries: Seq<DirEntryView>,
) -> FsReplyView {
    match request {
        FsRequestView::Probe { path } => FsReplyView::Probed {
            exists: if path == dir {
                disk.dir_exists
            } else {
                disk.files.contains_key(path)
            },
        },
        FsRequestView::Load { path } => if disk.files.contains_key(path) {
            match disk.files[path] {
                FileContent::Document(prompt) => FsReplyView::Loaded { prompt },
                FileContent::Damaged => FsReplyView::Failed {
                    fault: FsFault::Format,
                    detail: Seq::empty(),
                },
            }
        } else {
            FsReplyView::Failed { fault: FsFault::NotFound, detail: Seq::empty() }
        },
        FsRequestView::MakeDir { path } => FsReplyView::Completed,
        FsRequestView::Store { path, prompt } => if disk.dir_exists {
            FsReplyView::Completed
        } else {
            FsReplyView::Failed { fault: FsFault::NotFound, detail: Seq::empty() }
        },
        FsRequestView::Rename { from, to } => if disk.files.contains_key(from) {
            FsReplyView::Completed
        } else {
            FsReplyView::Failed { fault: FsFault::NotFound, detail: Seq::empty() }
        },
        FsRequestView::Remove { path } => if disk.files.contains_key(path) {
            FsReplyView::Completed
        } else {
            FsReplyView::Failed { fault: FsFault::NotFound, detail: Seq::empty() }
        },
        FsRequestView::Scan { path } => if path == dir && disk.dir_exists {
            FsReplyView::Scanned { entries }
        } else {
            FsReplyView::Failed { fault: FsFault::NotFound, detail: Seq::empty() }
        },
    }
}

/// What a request leaves behind on the file system.
pub open spec fn disk_after(dir: Seq<char>, disk: Disk, request: FsRequestView) -> Disk {
    match request {
        FsRequestView::MakeDir { path } => if path == dir {
            Disk { dir_exists: true, ..disk }
        } else {
            disk
        },
        FsRequestView::Store { path, prompt } => if disk.dir_exists {
            Disk { files: disk.files.insert(path, FileContent::Document(prompt)), ..disk }
        } else {
            disk
        },
        FsRequestView::Rename { from, to } => if disk.files.contains_key(from) {
            Disk { files: disk.files.remove(from).insert(to, disk.files[from]), ..disk }
        } else {
            disk
        },
        FsRequestView::Remove { path } => Disk { files: disk.files.remove(path), ..disk },
        _ => disk,
    }
}

/// One more step of a retrieval.
pub open spec fn get_advances(
    dir: Seq<char>,
    disk: Disk,
    step: Step<GetTask, FsRequestView, FoundView>,
) -> Step<GetTask, FsRequestView, FoundView> {
    match step {
        Step::Ask { task, request } => get_resumes(
            dir,
            task,
            reply_to(dir, disk, request, Seq::empty()),
        ),
        Step::Done { output } => step,
    }
}

/// What the retrieval of the prompt with the given identifier returns.
pub open spec fn retrieved(dir: Seq<char>, disk: Disk, id: PromptId) -> Option<FoundView> {
    match get_advances(dir, disk, get_advances(dir, disk, get_begins(dir, id))) {
        Step::Done { output } => Some(output),
        Step::Ask { task, request } => None,
    }
}

/// A save in progress: the file system as it stands, and the next step.
pub struct SaveProgress {
    pub disk: Disk,
    pub step: Step<SaveTaskView, FsRequestView, SavedView>,
}

/// One more step of a save.
pub open spec fn save_advances(dir: Seq<char>, progress: SaveProgress) -> SaveProgress {
    match progress.step {
        Step::Ask { task, request } => SaveProgress {
            disk: disk_after(dir, progress.disk, request),
            step: save_resumes(dir, task, reply_to(dir, progress.disk, request, Seq::empty())),
        },
        Step::Done { output } => progress,
    }
}

/// A save after the given number of steps.
pub open spec fn save_after(dir: Seq<char>, disk: Disk, prompt: PromptView, steps: nat) -> SaveProgress
    decreases steps,
{
    if steps == 0 {
        SaveProgress { disk, step: save_begins(dir, prompt) }
    } else {
        save_advances(dir, save_after(dir, disk, prompt, (steps - 1) as nat))
    }
}

/// A save at its end: no save takes more than four steps.
pub open spec fn saved(dir: Seq<char>, disk: Disk, prompt: PromptView) -> SaveProgress {
    save_after(dir, disk, prompt, 4)
}

/// A removal in progress: the file system as it stands, and the next step.
pub struct DeleteProgress {
    pub disk: Disk,
    pub step: Step<DeleteTask, FsRequestView, DeletedView>,
}

/// One more step of a removal.
pub open spec fn delete_advances(dir: Seq<char>, progress: DeleteProgress) -> DeleteProgress {
    match progress.step {
        Step::Ask { task, request } => DeleteProgress {
            disk: disk_after(dir, progress.disk, request),
            step: delete_resumes(dir, task, reply_to(dir, progress.disk, request, Seq::empty())),
        },
        Step::Done { output } => progress,
    }
}

/// A removal at its end: no removal takes more than two steps.
pub open spec fn deleted(dir: Seq<char>, disk: Disk, id: PromptId) -> DeleteProgress {
    delete_advances(
        dir,
        delete_advances(dir, DeleteProgress { disk, step: delete_begins(dir, id) }),
    )
}

/// The entry `name` of a directory stands at a path of its own, which is
/// not the directory's.
pub proof fn lemma_joined_injective(dir: Seq<char>, left: Seq<char>, right: Seq<char>)
    ensures
        joined(dir, left) == joined(dir, right) ==> left == right,
        left.len() > 0 ==> joined(dir, left) != dir,
{
    let prefix = if dir.len() == 0 {
        Seq::<char>::empty()
    } else if dir.last() == '/' {
        dir
    } else {
        dir + seq!['/']
    };
    assert(joined(dir, left) =~= prefix + left);
    assert(joined(dir, right) =~= prefix + right);
    if prefix + left == prefix + right {
        assert(left =~= (prefix + left).subrange(prefix.len() as int, (prefix + left).len() as int));
        assert(right =~= (prefix + right).subrange(
            prefix.len() as int,
            (prefix + right).len() as int,
        ));
    }
    if left.len() > 0 {
        assert((prefix + left).len() > dir.len() || prefix.len() + left.len() > dir.len());
        if dir.len() > 0 {
            assert(prefix.len() >= dir.len());
        }
    }
}

/// The documents of two prompts stand at different paths, and no document
/// stands at the directory's path or at a draft's path.
pub proof fn lemma_paths_distinct(dir: Seq<char>, left: PromptId, right: PromptId)
    ensures
        prompt_path(dir, left) == prompt_path(dir, right) ==> left == right,
        prompt_path(dir, left) != dir,
        draft_path(dir, left) != dir,
        draft_path(dir, left) != prompt_path(dir, right),
        draft_path(dir, left) == draft_path(dir, right) ==> left == right,
{
    reveal_strlit(".json");
    reveal_strlit(".tmp");
    lemma_joined_injective(dir, file_name_of(left), file_name_of(right));
    lemma_joined_injective(dir, file_name_of(left) + ".tmp"@, file_name_of(right));
    let left_name = file_name_of(left);
    let right_name = file_name_of(right);
    assert(left_name.len() == 41 && right_name.len() == 41);
    if left_name == right_name {
        assert(left_name.subrange(0, 36) =~= canonical_text(left.bits));
        assert(right_name.subrange(0, 36) =~= canonical_text(right.bits));
        lemma_canonical_text_injective(left.bits, right.bits);
    }
    let prefix = if dir.len() == 0 {
        Seq::<char>::empty()
    } else if dir.last() == '/' {
        dir
    } else {
        dir + seq!['/']
    };
    assert(prompt_path(dir, left) =~= prefix + left_name);
    assert(prompt_path(dir, right) =~= prefix + right_name);
    assert(draft_path(dir, left).len() == prefix.len() + 45);
    assert(draft_path(dir, right).len() == prefix.len() + 45);
    assert(prompt_path(dir, right).len() == prefix.len() + 41);
    if draft_path(dir, left) == draft_path(dir, right) {
        assert(prompt_path(dir, left) =~= draft_path(dir, left).subrange(
            0,
            draft_path(dir, left).len() - 4,
        ));
        assert(prompt_path(dir, right) =~= draft_path(dir, right).subrange(
            0,
            draft_path(dir, right).len() - 4,
        ));
    }
}

/// The outcome of a retrieval that found the prompt.
pub open spec fn found(prompt: PromptView) -> Option<FoundView> {
    Some(Ok(Some(prompt)))
}

/// The outcome of a retrieval that found no record.
pub open spec fn not_found() -> Option<FoundView> {
    Some(Ok(None))
}

/// Whether a retrieval failed with a validation error.
pub open spec fn found_malformed(outcome: Option<FoundView>) -> bool {
    outcome matches Some(Err(error)) && error.kind == ErrorKind::Validation
}

/// The last step of a save that succeeded.
pub open spec fn save_done() -> Step<SaveTaskView, FsRequestView, SavedView> {
    Step::Done { output: Ok(()) }
}

/// The last step of a removal, which reports whether a record existed.
pub open spec fn delete_done(existed: bool) -> Step<DeleteTask, FsRequestView, DeletedView> {
    Step::Done { output: Ok(existed) }
}

/// The files that a finished save of `prompt` leaves behind: the prompt's
/// document at its path, no draft of it, and every other file as it was.
pub open spec fn files_with(
    dir: Seq<char>,
    files: Map<Seq<char>, FileContent>,
    prompt: PromptView,
) -> Map<Seq<char>, FileContent> {
    files.remove(draft_path(dir, prompt.id)).insert(
        prompt_path(dir, prompt.id),
        FileContent::Document(prompt),
    )
}

/// What a finished save leaves behind: the directory exists, the prompt's
/// document stands at its path, no draft of it is left, and every other
/// file is as it was.
pub proof fn lemma_saved(dir: Seq<char>, disk: Disk, prompt: PromptView)
    ensures
        saved(dir, disk, prompt).step == save_done(),
        saved(dir, disk, prompt).disk.dir_exists,
        saved(dir, disk, prompt).disk.files == files_with(dir, disk.files, prompt),
{
    reveal_with_fuel(save_after, 5);
    lemma_paths_distinct(dir, prompt.id, prompt.id);
    let draft = draft_path(dir, prompt.id);
    let path = prompt_path(dir, prompt.id);
    let document = FileContent::Document(prompt);
    assert(disk.files.insert(draft, document).remove(draft).insert(path, document)
        =~= files_with(dir, disk.files, prompt));
}

/// What a retrieval returns where it does not fail: nothing where no file
/// stands at the prompt's path, and the prompt where its document stands
/// there. `None` where the file that stands there cannot be decoded.
pub open spec fn read_back(dir: Seq<char>, disk: Disk, id: PromptId) -> Option<FoundView> {
    if !disk.files.contains_key(prompt_path(dir, id)) {
        not_found()
    } else {
        match disk.files[prompt_path(dir, id)] {
            FileContent::Document(prompt) => found(prompt),
            FileContent::Damaged => None,
        }
    }
}

/// A retrieval returns what stands at the prompt's path, and fails with a
/// validation error where that cannot be decoded.
pub proof fn lemma_retrieved(dir: Seq<char>, disk: Disk, id: PromptId)
    ensures
        retrieved(dir, disk, id) == read_back(dir, disk, id) || (found_malformed(
            retrieved(dir, disk, id),
        ) && read_back(dir, disk, id) is None),
{
    lemma_paths_distinct(dir, id, id);
}

/// One more step of a listing, `entries` being what a scan reports.
pub open spec fn list_advances(
    dir: Seq<char>,
    disk: Disk,
    entries: Seq<DirEntryView>,
    step: Step<ListTaskView, FsRequestView, ListedView>,
) -> Step<ListTaskView, FsRequestView, ListedView> {
    match step {
        Step::Ask { task, request } => list_resumes(
            dir,
            task,
            reply_to(dir, disk, request, entries),
        ),
        Step::Done { output } => step,
    }
}

/// A listing the given number of steps after `step`.
pub open spec fn list_run(
    dir: Seq<char>,
    disk: Disk,
    entries: Seq<DirEntryView>,
    step: Step<ListTaskView, FsRequestView, ListedView>,
    steps: nat,
) -> Step<ListTaskView, FsRequestView, ListedView>
    decreases steps,
{
    if steps == 0 {
        step
    } else {
        list_run(dir, disk, entries, list_advances(dir, disk, entries, step), (steps - 1) as nat)
    }
}

/// What a listing returns: it takes one step for the scan and no more than
/// one for each entry.
pub open spec fn listed(dir: Seq<char>, disk: Disk, entries: Seq<DirEntryView>) -> Option<
    ListedView,
> {
    match list_run(dir, disk, entries, list_begins(dir), entries.len() + 1) {
        Step::Done { output } => Some(output),
        Step::Ask { task, request } => None,
    }
}

/// The prompt whose document stands at the path of the given identifier.
pub open spec fn document_at(dir: Seq<char>, disk: Disk, id: PromptId) -> Option<PromptView> {
    if disk.files.contains_key(prompt_path(dir, id)) {
        match disk.files[prompt_path(dir, id)] {
            FileContent::Document(prompt) => Some(prompt),
            FileContent::Damaged => None,
        }
    } else {
        None
    }
}

/// The prompts whose documents stand at the paths of the given
/// identifiers, that of the last identifier first.
pub open spec fn documents_of(dir: Seq<char>, disk: Disk, pending: Seq<PromptId>) -> Seq<PromptView>
    decreases pending.len(),
{
    if pending.len() == 0 {
        Seq::empty()
    } else {
        let later = documents_of(dir, disk, pending.drop_last());
        match document_at(dir, disk, pending.last()) {
            Some(prompt) => seq![prompt] + later,
            None => later,
        }
    }
}

/// A listing that is done stays as it is.
proof fn lemma_list_rests(
    dir: Seq<char>,
    disk: Disk,
    entries: Seq<DirEntryView>,
    output: ListedView,
    steps: nat,
)
    ensures
        list_run(dir, disk, entries, Step::Done { output }, steps) == (Step::<
            ListTaskView,
            FsRequestView,
            ListedView,
        >::Done { output }),
    decreases steps,
{
    if steps > 0 {
        lemma_list_rests(dir, disk, entries, output, (steps - 1) as nat);
    }
}

/// Once the scan is done, a listing adds to what it has found the prompts
/// of the documents that are left to load, and ends.
proof fn lemma_list_loads(
    dir: Seq<char>,
    disk: Disk,
    entries: Seq<DirEntryView>,
    pending: Seq<PromptId>,
    found: Seq<PromptView>,
    steps: nat,
)
    requires
        steps >= pending.len(),
    ensures
        list_run(dir, disk, entries, list_continues(dir, pending, found), steps) == (Step::<
            ListTaskView,
            FsRequestView,
            ListedView,
        >::Done { output: Ok(found + documents_of(dir, disk, pending)) }),
    decreases pending.len(),
{
    if pending.len() == 0 {
        assert(found + documents_of(dir, disk, pending) =~= found);
        lemma_list_rests(dir, disk, entries, Ok(found), steps);
    } else {
        let id = pending.last();
        lemma_paths_distinct(dir, id, id);
        let next = match document_at(dir, disk, id) {
            Some(prompt) => found.push(prompt),
            None => found,
        };
        assert(list_advances(dir, disk, entries, list_continues(dir, pending, found))
            == list_continues(dir, pending.drop_last(), next));
        lemma_list_loads(dir, disk, entries, pending.drop_last(), next, (steps - 1) as nat);
        assert(next + documents_of(dir, disk, pending.drop_last()) =~= found + documents_of(
            dir,
            disk,
            pending,
        ));
    }
}

/// A listing loads no more documents than the scan reports entries.
proof fn lemma_pending_is_short(entries: Seq<DirEntryView>)
    ensures
        pending_ids(entries).len() <= entries.len(),
    decreases entries.len(),
{
    if entries.len() > 0 {
        lemma_pending_is_short(entries.drop_first());
    }
}

/// What a listing returns: the prompts of the documents of the regular
/// files that carry a prompt's file name, in the order of the scan; and
/// nothing where the directory does not exist.
pub proof fn lemma_listed(dir: Seq<char>, disk: Disk, entries: Seq<DirEntryView>)
    ensures
        listed(dir, disk, entries) == Some(
            Ok::<Seq<PromptView>, StorageErrorView>(
                if disk.dir_exists {
                    documents_of(dir, disk, pending_ids(entries))
                } else {
                    Seq::empty()
                },
            ),
        ),
{
    let steps = entries.len();
    if disk.dir_exists {
        lemma_pending_is_short(entries);
        lemma_list_loads(dir, disk, entries, pending_ids(entries), Seq::empty(), steps);
        assert(Seq::<PromptView>::empty() + documents_of(dir, disk, pending_ids(entries))
            =~= documents_of(dir, disk, pending_ids(entries)));
    } else {
        lemma_list_rests(dir, disk, entries, Ok(Seq::empty()), steps);
    }
}

} // verus!
