//! The laws of the storage contract, for the file store against a file
//! system that does what it is asked.

use crate::models::ident::PromptId;
use crate::models::prompt::PromptView;
use crate::storage::file_model::{
    delete_done, deleted, document_at, documents_of, files_with, found, is_scan_of, lemma_listed,
    lemma_paths_distinct, lemma_retrieved, lemma_saved, listed, not_found, retrieved,
    save_advances, save_after, save_done, saved, Disk, FileContent, SaveProgress,
};
use crate::storage::file_steps::{DirEntryView, FsFault, FsReplyView, FsRequestView};
use crate::storage::filesystem::{
    document_suffix, draft_path, draft_suffix, file_name_of, joined, lemma_file_name_recognized, lemma_recognized_is_file_name,
    pending_ids, prompt_path, recognized, save_begins, save_resumes, store_request, ListedView,
    SaveTaskView, SavedView,
};
use crate::storage::contract::{is_owed, records_after, Records};
use crate::storage::{Step, StorageCallView, StorageErrorView, StorageReplyView};
use vstd::prelude::*;

verus! {

/// A prompt that was saved is retrieved as it was saved.
pub proof fn law_save_then_get(dir: Seq<char>, disk: Disk, prompt: PromptView)
    ensures
        retrieved(dir, saved(dir, disk, prompt).disk, prompt.id) == found(prompt),
{
    lemma_saved(dir, disk, prompt);
    lemma_retrieved(dir, saved(dir, disk, prompt).disk, prompt.id);
}

/// Where no document stands for an identifier, its retrieval finds nothing,
/// and its removal reports that no record existed and changes nothing.
pub proof fn law_absent_id(dir: Seq<char>, disk: Disk, id: PromptId)
    requires
        !disk.files.contains_key(prompt_path(dir, id)),
    ensures
        retrieved(dir, disk, id) == not_found(),
        deleted(dir, disk, id).step == delete_done(false),
        deleted(dir, disk, id).disk == disk,
{
    lemma_paths_distinct(dir, id, id);
}

/// Saving the same prompt twice leaves what saving it once leaves.
pub proof fn law_save_idempotent(dir: Seq<char>, disk: Disk, prompt: PromptView)
    ensures
        saved(dir, saved(dir, disk, prompt).disk, prompt) == saved(dir, disk, prompt),
{
    let once = saved(dir, disk, prompt);
    let twice = saved(dir, once.disk, prompt);
    lemma_saved(dir, disk, prompt);
    lemma_saved(dir, once.disk, prompt);
    lemma_paths_distinct(dir, prompt.id, prompt.id);
    assert(twice.disk.files =~= once.disk.files);
}

/// A save under an identifier that is in use replaces the record whole:
/// the retrieval returns the later prompt.
pub proof fn law_save_replaces(dir: Seq<char>, disk: Disk, first: PromptView, second: PromptView)
    requires
        first.id == second.id,
    ensures
        retrieved(dir, saved(dir, saved(dir, disk, first).disk, second).disk, first.id) == found(second),
{
    law_save_then_get(dir, saved(dir, disk, first).disk, second);
}

/// The removal of a saved prompt reports that a record existed; after it
/// the retrieval finds nothing, and a second removal reports that no
/// record existed.
pub proof fn law_delete_after_save(dir: Seq<char>, disk: Disk, prompt: PromptView)
    ensures
        ({
            let stored = saved(dir, disk, prompt).disk;
            let removed = deleted(dir, stored, prompt.id);
            &&& removed.step == delete_done(true)
            &&& retrieved(dir, removed.disk, prompt.id) == not_found()
            &&& deleted(dir, removed.disk, prompt.id).step == delete_done(false)
        }),
{
    lemma_saved(dir, disk, prompt);
    lemma_paths_distinct(dir, prompt.id, prompt.id);
    let stored = saved(dir, disk, prompt).disk;
    let removed = deleted(dir, stored, prompt.id);
    law_absent_id(dir, removed.disk, prompt.id);
}

/// A save under one identifier leaves the record of every other
/// identifier as it was.
pub proof fn law_save_keeps_others(dir: Seq<char>, disk: Disk, prompt: PromptView, other: PromptId)
    requires
        other != prompt.id,
    ensures
        retrieved(dir, saved(dir, disk, prompt).disk, other) == retrieved(dir, disk, other),
{
    lemma_saved(dir, disk, prompt);
    lemma_paths_distinct(dir, prompt.id, other);
    lemma_paths_distinct(dir, other, other);
}

/// Until a save is done, every retrieval returns what it returned before
/// the save began: a save that stops early has changed no record.
pub proof fn law_save_in_progress_is_invisible(
    dir: Seq<char>,
    disk: Disk,
    prompt: PromptView,
    steps: nat,
    id: PromptId,
)
    requires
        save_after(dir, disk, prompt, steps).step is Ask,
    ensures
        retrieved(dir, save_after(dir, disk, prompt, steps).disk, id) == retrieved(dir, disk, id),
{
    reveal_with_fuel(save_after, 5);
    lemma_paths_distinct(dir, prompt.id, id);
    lemma_paths_distinct(dir, id, id);
    if steps >= 4 {
        lemma_saved(dir, disk, prompt);
        lemma_save_rests(dir, disk, prompt, steps);
    }
}

/// A save that is done stays as it is.
proof fn lemma_save_rests(dir: Seq<char>, disk: Disk, prompt: PromptView, steps: nat)
    requires
        steps >= 4,
    ensures
        save_after(dir, disk, prompt, steps) == saved(dir, disk, prompt),
    decreases steps,
{
    lemma_saved(dir, disk, prompt);
    if steps > 4 {
        lemma_save_rests(dir, disk, prompt, (steps - 1) as nat);
    }
}

/// Whether a step is the last of a save and reports a failure with the
/// given cause.
pub open spec fn ends_with_cause(
    step: Step<SaveTaskView, FsRequestView, SavedView>,
    cause: Seq<char>,
) -> bool {
    step matches Step::Done { output: Err(error) } && error.cause == cause
}

/// A save ends at once, with the failure, when a step fails.
pub proof fn law_failed_step_ends_save(
    dir: Seq<char>,
    task: SaveTaskView,
    fault: FsFault,
    detail: Seq<char>,
)
    ensures
        ends_with_cause(save_resumes(dir, task, (FsReplyView::Failed { fault, detail })), detail),
{
}

/// The file system after each of the prompts was saved, in order.
pub open spec fn saved_all(dir: Seq<char>, disk: Disk, prompts: Seq<PromptView>) -> Disk
    decreases prompts.len(),
{
    if prompts.len() == 0 {
        disk
    } else {
        saved(dir, saved_all(dir, disk, prompts.drop_last()), prompts.last()).disk
    }
}

/// No two of the prompts share an identifier.
pub open spec fn distinct_ids(prompts: Seq<PromptView>) -> bool {
    forall|i: int, j: int| 0 <= i < j < prompts.len() ==> prompts[i].id != prompts[j].id
}

/// The files are the documents of the prompts, each at its path, and no
/// others.
pub open spec fn holds_exactly(
    dir: Seq<char>,
    files: Map<Seq<char>, FileContent>,
    prompts: Seq<PromptView>,
) -> bool {
    &&& forall|path: Seq<char>| #[trigger]
        files.contains_key(path) ==> exists|j: int|
            0 <= j < prompts.len() && path == prompt_path(dir, #[trigger] prompts[j].id)
    &&& forall|j: int|
        0 <= j < prompts.len() ==> files.contains_key(prompt_path(dir, #[trigger] prompts[j].id))
            && files[prompt_path(dir, prompts[j].id)] == FileContent::Document(prompts[j])
}

/// A listing returns exactly the given prompts: as many, and each of them.
pub open spec fn lists_exactly(outcome: Option<ListedView>, prompts: Seq<PromptView>) -> bool {
    outcome matches Some(Ok(found)) && found.len() == prompts.len() && (forall|i: int|
        0 <= i < found.len() ==> prompts.contains(#[trigger] found[i])) && (forall|j: int|
        0 <= j < prompts.len() ==> found.contains(#[trigger] prompts[j]))
}

/// After saves of prompts with distinct identifiers to an empty store, the
/// files are the documents of those prompts.
proof fn lemma_saved_all_files(dir: Seq<char>, disk: Disk, prompts: Seq<PromptView>)
    requires
        disk.files.dom() == Set::<Seq<char>>::empty(),
        distinct_ids(prompts),
    ensures
        holds_exactly(dir, saved_all(dir, disk, prompts).files, prompts),
        prompts.len() > 0 ==> saved_all(dir, disk, prompts).dir_exists,
    decreases prompts.len(),
{
    if prompts.len() == 0 {
        assert forall|path: Seq<char>| !disk.files.contains_key(path) by {
            assert(!disk.files.dom().contains(path));
        }
    } else {
        let earlier = prompts.drop_last();
        let last = prompts.last();
        let before = saved_all(dir, disk, earlier);
        lemma_saved_all_files(dir, disk, earlier);
        lemma_saved(dir, before, last);
        let files = saved_all(dir, disk, prompts).files;
        assert(files == files_with(dir, before.files, last));
        assert forall|path: Seq<char>| #[trigger] files.contains_key(path) implies exists|j: int|
            0 <= j < prompts.len() && path == prompt_path(dir, #[trigger] prompts[j].id) by {
            if path == prompt_path(dir, last.id) {
                assert(prompts[prompts.len() - 1].id == last.id);
            } else {
                assert(before.files.contains_key(path));
                let j = choose|j: int|
                    0 <= j < earlier.len() && path == prompt_path(dir, #[trigger] earlier[j].id);
                assert(prompts[j].id == earlier[j].id);
            }
        }
        assert forall|j: int| 0 <= j < prompts.len() implies files.contains_key(
            prompt_path(dir, #[trigger] prompts[j].id),
        ) && files[prompt_path(dir, prompts[j].id)] == FileContent::Document(prompts[j]) by {
            if j < prompts.len() - 1 {
                assert(earlier[j] == prompts[j]);
                assert(earlier[j].id == prompts[j].id);
                lemma_paths_distinct(dir, last.id, prompts[j].id);
                lemma_paths_distinct(dir, prompts[j].id, last.id);
            }
        }
    }
}

/// Every identifier that a listing loads is that of a regular file of the
/// scan with the file name of a prompt.
proof fn lemma_pending_origin(entries: Seq<DirEntryView>, id: PromptId)
    requires
        pending_ids(entries).contains(id),
    ensures
        exists|k: int|
            0 <= k < entries.len() && entries[k].is_file && #[trigger] entries[k].file_name
                == file_name_of(id),
    decreases entries.len(),
{
    if entries.len() > 0 {
        let later = entries.drop_first();
        let first = entries.first();
        let index = choose|i: int|
            0 <= i < pending_ids(entries).len() && pending_ids(entries)[i] == id;
        if first.is_file && recognized(first.file_name) == Some(id) && (index == pending_ids(
            later,
        ).len()) {
            lemma_recognized_is_file_name(first.file_name);
            assert(entries[0].file_name == file_name_of(id));
        } else {
            assert(pending_ids(later)[index] == id);
            lemma_pending_origin(later, id);
            let k = choose|k: int|
                0 <= k < later.len() && later[k].is_file && #[trigger] later[k].file_name
                    == file_name_of(id);
            assert(entries[k + 1].file_name == later[k].file_name);
        }
    }
}

/// The identifier of every regular file of the scan with the file name of
/// a prompt is among those that a listing loads.
proof fn lemma_pending_complete(entries: Seq<DirEntryView>, k: int, id: PromptId)
    requires
        0 <= k < entries.len(),
        entries[k].is_file,
        entries[k].file_name == file_name_of(id),
    ensures
        pending_ids(entries).contains(id),
    decreases entries.len(),
{
    let later = entries.drop_first();
    lemma_file_name_recognized(id);
    if k == 0 {
        let at = pending_ids(later).len() as int;
        assert(pending_ids(entries)[at] == id);
    } else {
        assert(later[k - 1] == entries[k]);
        lemma_pending_complete(later, k - 1, id);
        let at = choose|i: int| 0 <= i < pending_ids(later).len() && pending_ids(later)[i] == id;
        assert(pending_ids(entries)[at] == id);
    }
}

/// A listing loads no document twice.
proof fn lemma_pending_distinct(entries: Seq<DirEntryView>)
    requires
        forall|i: int, j: int|
            0 <= i < j < entries.len() ==> entries[i].file_name != entries[j].file_name,
    ensures
        pending_ids(entries).no_duplicates(),
    decreases entries.len(),
{
    if entries.len() > 0 {
        let later = entries.drop_first();
        let first = entries.first();
        assert forall|i: int, j: int| 0 <= i < j < later.len() implies later[i].file_name
            != later[j].file_name by {
            assert(later[i] == entries[i + 1] && later[j] == entries[j + 1]);
        }
        lemma_pending_distinct(later);
        if let Some(id) = recognized(first.file_name) {
            if first.is_file {
                lemma_recognized_is_file_name(first.file_name);
                if pending_ids(later).contains(id) {
                    lemma_pending_origin(later, id);
                    let k = choose|k: int|
                        0 <= k < later.len() && later[k].is_file && #[trigger] later[k].file_name
                            == file_name_of(id);
                    assert(later[k] == entries[k + 1]);
                    assert(entries[0].file_name != entries[k + 1].file_name);
                }
                let old_ids = pending_ids(later);
                let new_ids = pending_ids(entries);
                assert(new_ids == old_ids.push(id));
                assert forall|i: int, j: int|
                    0 <= i < new_ids.len() && 0 <= j < new_ids.len() && i != j implies new_ids[i]
                    != new_ids[j] by {
                    if i < old_ids.len() && j < old_ids.len() {
                    } else if i < old_ids.len() {
                        assert(old_ids[i] == new_ids[i]);
                    } else {
                        assert(old_ids[j] == new_ids[j]);
                    }
                }
            }
        }
    }
}

/// Every prompt that is loaded stands as a document at the path of one of
/// the identifiers.
proof fn lemma_documents_origin(
    dir: Seq<char>,
    disk: Disk,
    pending: Seq<PromptId>,
    prompt: PromptView,
)
    requires
        documents_of(dir, disk, pending).contains(prompt),
    ensures
        exists|k: int|
            0 <= k < pending.len() && document_at(dir, disk, #[trigger] pending[k]) == Some(prompt),
    decreases pending.len(),
{
    if pending.len() > 0 {
        let earlier = pending.drop_last();
        let rest = documents_of(dir, disk, earlier);
        let all = documents_of(dir, disk, pending);
        let index = choose|i: int| 0 <= i < all.len() && all[i] == prompt;
        if document_at(dir, disk, pending.last()) == Some(prompt) {
            assert(pending[pending.len() - 1] == pending.last());
        } else {
            if document_at(dir, disk, pending.last()) is Some {
                assert(all == seq![document_at(dir, disk, pending.last())->0] + rest);
                assert(index > 0);
                assert(rest[index - 1] == prompt);
            }
            assert(rest.contains(prompt));
            lemma_documents_origin(dir, disk, earlier, prompt);
            let k = choose|k: int|
                0 <= k < earlier.len() && document_at(dir, disk, #[trigger] earlier[k]) == Some(
                    prompt,
                );
            assert(pending[k] == earlier[k]);
        }
    }
}

/// The prompt of every document that stands at the path of one of the
/// identifiers is loaded.
proof fn lemma_documents_complete(
    dir: Seq<char>,
    disk: Disk,
    pending: Seq<PromptId>,
    k: int,
    prompt: PromptView,
)
    requires
        0 <= k < pending.len(),
        document_at(dir, disk, pending[k]) == Some(prompt),
    ensures
        documents_of(dir, disk, pending).contains(prompt),
    decreases pending.len(),
{
    let earlier = pending.drop_last();
    let rest = documents_of(dir, disk, earlier);
    let all = documents_of(dir, disk, pending);
    if k == pending.len() - 1 {
        assert(all[0] == prompt);
    } else {
        assert(earlier[k] == pending[k]);
        lemma_documents_complete(dir, disk, earlier, k, prompt);
        let at = choose|i: int| 0 <= i < rest.len() && rest[i] == prompt;
        if document_at(dir, disk, pending.last()) is Some {
            assert(all[at + 1] == rest[at]);
        } else {
            assert(all[at] == rest[at]);
        }
    }
}

/// Where each document carries the identifier under which it stands, the
/// documents of distinct identifiers are loaded as distinct prompts.
proof fn lemma_documents_distinct(dir: Seq<char>, disk: Disk, pending: Seq<PromptId>)
    requires
        pending.no_duplicates(),
        forall|k: int|
            0 <= k < pending.len() ==> (document_at(dir, disk, #[trigger] pending[k]) matches Some(
                prompt,
            ) ==> prompt.id == pending[k]),
    ensures
        documents_of(dir, disk, pending).no_duplicates(),
    decreases pending.len(),
{
    if pending.len() > 0 {
        let earlier = pending.drop_last();
        let rest = documents_of(dir, disk, earlier);
        let all = documents_of(dir, disk, pending);
        assert forall|k: int| 0 <= k < earlier.len() implies (document_at(
            dir,
            disk,
            #[trigger] earlier[k],
        ) matches Some(prompt) ==> prompt.id == earlier[k]) by {
            assert(earlier[k] == pending[k]);
        }
        lemma_documents_distinct(dir, disk, earlier);
        if let Some(head) = document_at(dir, disk, pending.last()) {
            assert(pending[pending.len() - 1] == pending.last());
            if rest.contains(head) {
                lemma_documents_origin(dir, disk, earlier, head);
                let k = choose|k: int|
                    0 <= k < earlier.len() && document_at(dir, disk, #[trigger] earlier[k]) == Some(
                        head,
                    );
                assert(earlier[k] == pending[k]);
                assert(pending[k] == head.id);
                assert(false);
            }
            assert(all == seq![head] + rest);
            assert forall|i: int, j: int|
                0 <= i < all.len() && 0 <= j < all.len() && i != j implies all[i] != all[j] by {
                if i > 0 && j > 0 {
                    assert(all[i] == rest[i - 1] && all[j] == rest[j - 1]);
                } else if i == 0 {
                    assert(all[j] == rest[j - 1]);
                } else {
                    assert(all[i] == rest[i - 1]);
                }
            }
        }
    }
}

/// Where the files are the documents of prompts with distinct
/// identifiers, a listing returns exactly those prompts, in whatever order
/// the file system reports the directory's entries.
proof fn lemma_lists_exact_files(
    dir: Seq<char>,
    after: Disk,
    prompts: Seq<PromptView>,
    entries: Seq<DirEntryView>,
)
    requires
        holds_exactly(dir, after.files, prompts),
        prompts.len() > 0 ==> after.dir_exists,
        distinct_ids(prompts),
        is_scan_of(dir, after, entries),
    ensures
        lists_exactly(listed(dir, after, entries), prompts),
{
    let pending = pending_ids(entries);
    lemma_listed(dir, after, entries);
    if prompts.len() == 0 {
        if after.dir_exists {
            assert forall|k: int| 0 <= k < pending.len() implies document_at(
                dir,
                after,
                #[trigger] pending[k],
            ) is None by {
                assert(!after.files.contains_key(prompt_path(dir, pending[k])));
            }
            let found = documents_of(dir, after, pending);
            if found.len() > 0 {
                assert(found.contains(found[0]));
                lemma_documents_origin(dir, after, pending, found[0]);
            }
        }
    } else {
        let found = documents_of(dir, after, pending);
        assert forall|k: int| 0 <= k < pending.len() implies (document_at(
            dir,
            after,
            #[trigger] pending[k],
        ) matches Some(prompt) ==> prompt.id == pending[k] && prompts.contains(prompt)) by {
            let path = prompt_path(dir, pending[k]);
            if after.files.contains_key(path) {
                let j = choose|j: int|
                    0 <= j < prompts.len() && path == prompt_path(dir, #[trigger] prompts[j].id);
                lemma_paths_distinct(dir, pending[k], prompts[j].id);
                assert(after.files[prompt_path(dir, prompts[j].id)] == FileContent::Document(
                    prompts[j],
                ));
            }
        }
        lemma_pending_distinct(entries);
        lemma_documents_distinct(dir, after, pending);
        assert forall|i: int| 0 <= i < found.len() implies prompts.contains(
            #[trigger] found[i],
        ) by {
            assert(found.contains(found[i]));
            lemma_documents_origin(dir, after, pending, found[i]);
        }
        assert forall|j: int| 0 <= j < prompts.len() implies found.contains(
            #[trigger] prompts[j],
        ) by {
            let id = prompts[j].id;
            let name = file_name_of(id);
            assert(after.files.contains_key(joined(dir, name)));
            let k = choose|k: int|
                0 <= k < entries.len() && entries[k].is_file && #[trigger] entries[k].file_name
                    == name;
            lemma_pending_complete(entries, k, id);
            let at = choose|i: int| 0 <= i < pending.len() && pending[i] == id;
            lemma_documents_complete(dir, after, pending, at, prompts[j]);
        }
        assert(prompts.no_duplicates()) by {
            assert forall|i: int, j: int|
                0 <= i < prompts.len() && 0 <= j < prompts.len() && i != j implies prompts[i]
                != prompts[j] by {
                if i < j {
                    assert(prompts[i].id != prompts[j].id);
                } else {
                    assert(prompts[j].id != prompts[i].id);
                }
            }
        }
        assert(found.to_set() =~= prompts.to_set()) by {
            assert forall|prompt: PromptView| found.to_set().contains(prompt)
                == prompts.to_set().contains(prompt) by {
                if found.contains(prompt) {
                    let i = choose|i: int| 0 <= i < found.len() && found[i] == prompt;
                    assert(prompts.contains(found[i]));
                }
                if prompts.contains(prompt) {
                    let j = choose|j: int| 0 <= j < prompts.len() && prompts[j] == prompt;
                    assert(found.contains(prompts[j]));
                }
            }
        }
        found.unique_seq_to_set();
        prompts.unique_seq_to_set();
    }
}

/// After saves of prompts with distinct identifiers to an empty store, a
/// listing returns exactly those prompts, in whatever order the file system
/// reports the directory's entries.
pub proof fn law_list_after_saves(
    dir: Seq<char>,
    disk: Disk,
    prompts: Seq<PromptView>,
    entries: Seq<DirEntryView>,
)
    requires
        disk.files.dom() == Set::<Seq<char>>::empty(),
        distinct_ids(prompts),
        is_scan_of(dir, saved_all(dir, disk, prompts), entries),
    ensures
        lists_exactly(listed(dir, saved_all(dir, disk, prompts), entries), prompts),
{
    lemma_saved_all_files(dir, disk, prompts);
    lemma_lists_exact_files(dir, saved_all(dir, disk, prompts), prompts, entries);
}

/// A listing of a store that holds no file returns no prompt.
pub proof fn law_list_of_empty_store(dir: Seq<char>, disk: Disk, entries: Seq<DirEntryView>)
    requires
        disk.files.dom() == Set::<Seq<char>>::empty(),
        is_scan_of(dir, disk, entries),
    ensures
        listed(dir, disk, entries) == Some(
            Ok::<Seq<PromptView>, StorageErrorView>(Seq::empty()),
        ),
{
    law_list_after_saves(dir, disk, Seq::empty(), entries);
    let found = listed(dir, disk, entries)->0->Ok_0;
    assert(found =~= Seq::empty());
}

/// Saves that take their steps in turn on one file system: the file system
/// as it stands, and the next step of each save.
pub struct ManySaves {
    pub disk: Disk,
    pub steps: Seq<Step<SaveTaskView, FsRequestView, SavedView>>,
}

/// One more step of the save with the number `mover`.
pub open spec fn many_saves_advance(dir: Seq<char>, saves: ManySaves, mover: int) -> ManySaves {
    if 0 <= mover < saves.steps.len() {
        let next = save_advances(dir, SaveProgress { disk: saves.disk, step: saves.steps[mover] });
        ManySaves { disk: next.disk, steps: saves.steps.update(mover, next.step) }
    } else {
        saves
    }
}

/// The saves of the prompts after they took steps in the order that
/// `schedule` gives: each entry is the number of the save that takes the
/// next step.
pub open spec fn many_saves_after(
    dir: Seq<char>,
    disk: Disk,
    prompts: Seq<PromptView>,
    schedule: Seq<int>,
) -> ManySaves
    decreases schedule.len(),
{
    if schedule.len() == 0 {
        ManySaves { disk, steps: Seq::new(prompts.len(), |i: int| save_begins(dir, prompts[i])) }
    } else {
        many_saves_advance(
            dir,
            many_saves_after(dir, disk, prompts, schedule.drop_last()),
            schedule.last(),
        )
    }
}

/// How many steps a schedule gives to the save with the number `mover`.
pub open spec fn steps_of(schedule: Seq<int>, mover: int) -> nat
    decreases schedule.len(),
{
    if schedule.len() == 0 {
        0
    } else if schedule.last() == mover {
        steps_of(schedule.drop_last(), mover) + 1
    } else {
        steps_of(schedule.drop_last(), mover)
    }
}

/// A schedule gives every one of `count` saves at least four steps.
pub open spec fn lets_all_finish(schedule: Seq<int>, count: nat) -> bool {
    forall|i: int| 0 <= i < count ==> #[trigger] steps_of(schedule, i) >= 4
}

/// How far a save of `prompt` has come, where it is on its way: the number
/// of steps that it cannot have needed more than.
spec fn save_rank(
    dir: Seq<char>,
    disk: Disk,
    prompt: PromptView,
    step: Step<SaveTaskView, FsRequestView, SavedView>,
) -> Option<nat> {
    let draft = draft_path(dir, prompt.id);
    let path = prompt_path(dir, prompt.id);
    if step == save_begins(dir, prompt) {
        Some(0)
    } else if step == (Step::<SaveTaskView, FsRequestView, SavedView>::Ask {
        task: SaveTaskView::MakingDir { prompt },
        request: FsRequestView::MakeDir { path: dir },
    }) {
        Some(1)
    } else if step == (Step::<SaveTaskView, FsRequestView, SavedView>::Ask {
        task: SaveTaskView::Storing { id: prompt.id },
        request: store_request(dir, prompt),
    }) && disk.dir_exists {
        Some(2)
    } else if step == (Step::<SaveTaskView, FsRequestView, SavedView>::Ask {
        task: SaveTaskView::Publishing { id: prompt.id },
        request: FsRequestView::Rename { from: draft, to: path },
    }) && disk.dir_exists && disk.files.contains_key(draft) && disk.files[draft]
        == FileContent::Document(prompt) {
        Some(3)
    } else if step == save_done() && disk.dir_exists && !disk.files.contains_key(draft)
        && disk.files.contains_key(path) && disk.files[path] == FileContent::Document(prompt) {
        Some(4)
    } else {
        None
    }
}

/// Whether a path is the path or the draft path of one of the prompts.
spec fn is_path_of(dir: Seq<char>, prompts: Seq<PromptView>, path: Seq<char>) -> bool {
    exists|i: int|
        0 <= i < prompts.len() && (path == prompt_path(dir, #[trigger] prompts[i].id) || path
            == draft_path(dir, prompts[i].id))
}

/// The files that none of the saves touches are as they were.
spec fn others_untouched(dir: Seq<char>, before: Disk, after: Disk, prompts: Seq<PromptView>) -> bool {
    forall|path: Seq<char>|
        !is_path_of(dir, prompts, path) ==> (#[trigger] after.files.contains_key(path)
            == before.files.contains_key(path)) && after.files[path] == before.files[path]
}

/// Every save is on its way and has come at least one step further with
/// each step that it took.
spec fn all_on_track(
    dir: Seq<char>,
    saves: ManySaves,
    prompts: Seq<PromptView>,
    schedule: Seq<int>,
) -> bool {
    &&& saves.steps.len() == prompts.len()
    &&& forall|i: int|
        0 <= i < prompts.len() ==> (#[trigger] save_rank(
            dir,
            saves.disk,
            prompts[i],
            saves.steps[i],
        ) matches Some(rank) && (rank >= 4 || rank >= steps_of(schedule, i)))
}

/// Saves under distinct identifiers stay on their way whatever the order
/// of their steps.
proof fn lemma_many_saves_on_track(
    dir: Seq<char>,
    disk: Disk,
    prompts: Seq<PromptView>,
    schedule: Seq<int>,
)
    requires
        distinct_ids(prompts),
    ensures
        all_on_track(dir, many_saves_after(dir, disk, prompts, schedule), prompts, schedule),
        others_untouched(dir, disk, many_saves_after(dir, disk, prompts, schedule).disk, prompts),
    decreases schedule.len(),
{
    let after = many_saves_after(dir, disk, prompts, schedule);
    if schedule.len() == 0 {
        assert forall|i: int| 0 <= i < prompts.len() implies #[trigger] save_rank(
            dir,
            after.disk,
            prompts[i],
            after.steps[i],
        ) == Some(0nat) by {}
    } else {
        let earlier = schedule.drop_last();
        let mover = schedule.last();
        lemma_many_saves_on_track(dir, disk, prompts, earlier);
        let before = many_saves_after(dir, disk, prompts, earlier);
        assert(after == many_saves_advance(dir, before, mover));
        if 0 <= mover < prompts.len() {
            let moved = prompts[mover];
            lemma_paths_distinct(dir, moved.id, moved.id);
            assert(save_rank(dir, before.disk, moved, before.steps[mover]) is Some);
            assert forall|i: int| 0 <= i < prompts.len() implies (#[trigger] save_rank(
                dir,
                after.disk,
                prompts[i],
                after.steps[i],
            ) matches Some(rank) && (rank >= 4 || rank >= steps_of(schedule, i))) by {
                assert(save_rank(dir, before.disk, prompts[i], before.steps[i]) is Some);
                if i != mover {
                    if i < mover {
                        assert(prompts[i].id != prompts[mover].id);
                    } else {
                        assert(prompts[mover].id != prompts[i].id);
                    }
                    lemma_paths_distinct(dir, moved.id, prompts[i].id);
                    lemma_paths_distinct(dir, prompts[i].id, moved.id);
                    lemma_paths_distinct(dir, prompts[i].id, prompts[i].id);
                    assert(after.steps[i] == before.steps[i]);
                }
            }
            assert forall|path: Seq<char>| !is_path_of(dir, prompts, path) implies (
            #[trigger] after.disk.files.contains_key(path) == disk.files.contains_key(path))
                && after.disk.files[path] == disk.files[path] by {
                assert(before.disk.files.contains_key(path) == disk.files.contains_key(path));
                assert(path != prompt_path(dir, prompts[mover].id) && path != draft_path(
                    dir,
                    prompts[mover].id,
                ));
            }
        } else {
            assert forall|i: int| 0 <= i < prompts.len() implies (#[trigger] save_rank(
                dir,
                after.disk,
                prompts[i],
                after.steps[i],
            ) matches Some(rank) && (rank >= 4 || rank >= steps_of(schedule, i))) by {
                assert(save_rank(dir, before.disk, prompts[i], before.steps[i]) is Some);
            }
            assert forall|path: Seq<char>| !is_path_of(dir, prompts, path) implies (
            #[trigger] after.disk.files.contains_key(path) == disk.files.contains_key(path))
                && after.disk.files[path] == disk.files[path] by {
                assert(before.disk.files.contains_key(path) == disk.files.contains_key(path));
            }
        }
    }
}

/// Saves under distinct identifiers do not disturb each other, however
/// many they are and whatever the order in which they take their steps:
/// once each has taken four steps, every save is done and has succeeded,
/// and every prompt is retrieved as it was saved.
pub proof fn law_interleaved_saves(
    dir: Seq<char>,
    disk: Disk,
    prompts: Seq<PromptView>,
    schedule: Seq<int>,
    which: int,
)
    requires
        distinct_ids(prompts),
        lets_all_finish(schedule, prompts.len()),
        0 <= which < prompts.len(),
    ensures
        many_saves_after(dir, disk, prompts, schedule).steps[which] == save_done(),
        retrieved(dir, many_saves_after(dir, disk, prompts, schedule).disk, prompts[which].id)
            == found(prompts[which]),
{
    let end = many_saves_after(dir, disk, prompts, schedule);
    lemma_many_saves_on_track(dir, disk, prompts, schedule);
    assert(save_rank(dir, end.disk, prompts[which], end.steps[which]) is Some);
    assert(steps_of(schedule, which) >= 4);
    lemma_retrieved(dir, end.disk, prompts[which].id);
}

/// Saves under distinct identifiers, their steps taken in any order and
/// however far they have come, leave the record of every identifier that
/// none of them carries as it was.
pub proof fn law_interleaved_saves_keep_others(
    dir: Seq<char>,
    disk: Disk,
    prompts: Seq<PromptView>,
    schedule: Seq<int>,
    other: PromptId,
)
    requires
        distinct_ids(prompts),
        forall|i: int| 0 <= i < prompts.len() ==> other != (#[trigger] prompts[i]).id,
    ensures
        retrieved(dir, many_saves_after(dir, disk, prompts, schedule).disk, other) == retrieved(
            dir,
            disk,
            other,
        ),
{
    let end = many_saves_after(dir, disk, prompts, schedule);
    lemma_many_saves_on_track(dir, disk, prompts, schedule);
    lemma_retrieved(dir, end.disk, other);
    lemma_retrieved(dir, disk, other);
    assert(!is_path_of(dir, prompts, prompt_path(dir, other))) by {
        assert forall|i: int| 0 <= i < prompts.len() implies prompt_path(dir, other)
            != prompt_path(dir, #[trigger] prompts[i].id) && prompt_path(dir, other) != draft_path(
            dir,
            prompts[i].id,
        ) by {
            lemma_paths_distinct(dir, other, prompts[i].id);
            lemma_paths_distinct(dir, prompts[i].id, other);
        }
    }
    assert(end.disk.files.contains_key(prompt_path(dir, other)) == disk.files.contains_key(
        prompt_path(dir, other),
    ));
}

/// After saves of prompts with distinct identifiers to an empty store,
/// their steps taken in any order, a listing returns exactly those prompts.
pub proof fn law_list_after_interleaved_saves(
    dir: Seq<char>,
    disk: Disk,
    prompts: Seq<PromptView>,
    schedule: Seq<int>,
    entries: Seq<DirEntryView>,
)
    requires
        disk.files.dom() == Set::<Seq<char>>::empty(),
        distinct_ids(prompts),
        lets_all_finish(schedule, prompts.len()),
        is_scan_of(dir, many_saves_after(dir, disk, prompts, schedule).disk, entries),
    ensures
        lists_exactly(
            listed(dir, many_saves_after(dir, disk, prompts, schedule).disk, entries),
            prompts,
        ),
{
    let end = many_saves_after(dir, disk, prompts, schedule);
    lemma_many_saves_on_track(dir, disk, prompts, schedule);
    assert forall|j: int| 0 <= j < prompts.len() implies end.disk.files.contains_key(
        prompt_path(dir, #[trigger] prompts[j].id),
    ) && end.disk.files[prompt_path(dir, prompts[j].id)] == FileContent::Document(prompts[j])
        && end.disk.dir_exists && !end.disk.files.contains_key(draft_path(dir, prompts[j].id)) by {
        assert(save_rank(dir, end.disk, prompts[j], end.steps[j]) is Some);
        assert(steps_of(schedule, j) >= 4);
    }
    assert forall|path: Seq<char>| #[trigger] end.disk.files.contains_key(path) implies exists|
        j: int,
    |
        0 <= j < prompts.len() && path == prompt_path(dir, #[trigger] prompts[j].id) by {
        if !is_path_of(dir, prompts, path) {
            assert(!disk.files.dom().contains(path));
            assert(end.disk.files.contains_key(path) == disk.files.contains_key(path));
        } else {
            let i = choose|i: int|
                0 <= i < prompts.len() && (path == prompt_path(dir, #[trigger] prompts[i].id)
                    || path == draft_path(dir, prompts[i].id));
            assert(!end.disk.files.contains_key(draft_path(dir, prompts[i].id)));
        }
    }
    if prompts.len() > 0 {
        assert(end.disk.files.contains_key(prompt_path(dir, prompts[0].id)));
    }
    lemma_lists_exact_files(dir, end.disk, prompts, entries);
}

/// Every document stands at the path of the identifier that it carries.
pub open spec fn is_consistent(dir: Seq<char>, disk: Disk) -> bool {
    forall|id: PromptId| #[trigger]
        document_at(dir, disk, id) matches Some(prompt) ==> prompt.id == id
}

/// Where every document stands at the path of the identifier that it
/// carries, a retrieval finds no prompt but one with the identifier that
/// was asked for.
pub proof fn law_found_has_the_id(dir: Seq<char>, disk: Disk, id: PromptId)
    requires
        is_consistent(dir, disk),
    ensures
        retrieved(dir, disk, id) matches Some(Ok(Some(held))) ==> held.id == id,
{
    lemma_retrieved(dir, disk, id);
    assert(document_at(dir, disk, id) is Some ==> document_at(dir, disk, id)->0.id == id);
}

/// A save keeps every document at the path of its own identifier.
pub proof fn law_save_keeps_documents_in_place(dir: Seq<char>, disk: Disk, prompt: PromptView)
    requires
        is_consistent(dir, disk),
    ensures
        is_consistent(dir, saved(dir, disk, prompt).disk),
{
    lemma_saved(dir, disk, prompt);
    let after = saved(dir, disk, prompt).disk;
    assert forall|other: PromptId|
        (#[trigger] document_at(dir, after, other)) is Some implies document_at(
            dir,
            after,
            other,
        )->0.id == other by {
        lemma_paths_distinct(dir, prompt.id, other);
        lemma_paths_distinct(dir, other, prompt.id);
        if other != prompt.id {
            assert(document_at(dir, disk, other) == document_at(dir, after, other));
        }
    }
}

/// A removal keeps every document at the path of its own identifier.
pub proof fn law_delete_keeps_documents_in_place(dir: Seq<char>, disk: Disk, id: PromptId)
    requires
        is_consistent(dir, disk),
    ensures
        is_consistent(dir, deleted(dir, disk, id).disk),
{
    let removed = deleted(dir, disk, id).disk;
    assert forall|other: PromptId|
        (#[trigger] document_at(dir, removed, other)) is Some implies document_at(
            dir,
            removed,
            other,
        )->0.id == other by {
        lemma_paths_distinct(dir, id, other);
        lemma_paths_distinct(dir, id, id);
        if document_at(dir, removed, other) is Some {
            assert(document_at(dir, disk, other) == document_at(dir, removed, other));
        }
    }
}

/// The records that the files hold: under each identifier the prompt
/// whose document stands at the identifier's path.
pub open spec fn records_on(dir: Seq<char>, disk: Disk) -> Records {
    Records {
        prompts: Map::new(
            |id: PromptId| document_at(dir, disk, id) is Some,
            |id: PromptId| document_at(dir, disk, id)->0,
        ),
    }
}

/// A file system in the state in which the file store leaves it: every
/// file at the path of a prompt is a document that carries the path's
/// identifier, and the directory exists where there is a file.
pub open spec fn is_sound(dir: Seq<char>, disk: Disk) -> bool {
    &&& is_consistent(dir, disk)
    &&& forall|id: PromptId| #[trigger]
        disk.files.contains_key(prompt_path(dir, id)) ==> document_at(dir, disk, id) is Some
    &&& forall|path: Seq<char>| #[trigger] disk.files.contains_key(path) ==> disk.dir_exists
}

/// The reply of the file store to a storage call, `entries` being what a
/// scan of the directory reports.
pub open spec fn answered(
    dir: Seq<char>,
    disk: Disk,
    call: StorageCallView,
    entries: Seq<DirEntryView>,
) -> Option<StorageReplyView> {
    match call {
        StorageCallView::List => match listed(dir, disk, entries) {
            Some(result) => Some(StorageReplyView::Listed { result }),
            None => None,
        },
        StorageCallView::Get { id } => match retrieved(dir, disk, id) {
            Some(result) => Some(StorageReplyView::Found { result }),
            None => None,
        },
        StorageCallView::Save { prompt } => match saved(dir, disk, prompt).step {
            Step::Done { output } => Some(StorageReplyView::Saved { result: output }),
            Step::Ask { task, request } => None,
        },
        StorageCallView::Delete { id } => match deleted(dir, disk, id).step {
            Step::Done { output } => Some(StorageReplyView::Deleted { result: output }),
            Step::Ask { task, request } => None,
        },
    }
}

/// The file system that the file store leaves behind after a storage
/// call.
pub open spec fn left_behind(dir: Seq<char>, disk: Disk, call: StorageCallView) -> Disk {
    match call {
        StorageCallView::Save { prompt } => saved(dir, disk, prompt).disk,
        StorageCallView::Delete { id } => deleted(dir, disk, id).disk,
        _ => disk,
    }
}

/// A listing returns every record once, in whatever order the file system
/// reports the directory's entries.
proof fn lemma_lists_every_record(dir: Seq<char>, disk: Disk, entries: Seq<DirEntryView>)
    requires
        is_sound(dir, disk),
        is_scan_of(dir, disk, entries),
    ensures
        listed(dir, disk, entries) matches Some(Ok(found)) && records_on(dir, disk).lists(found),
{
    let records = records_on(dir, disk);
    let pending = pending_ids(entries);
    lemma_listed(dir, disk, entries);
    if disk.dir_exists {
        let found = documents_of(dir, disk, pending);
        lemma_pending_distinct(entries);
        assert forall|k: int| 0 <= k < pending.len() implies (document_at(
            dir,
            disk,
            #[trigger] pending[k],
        ) matches Some(prompt) ==> prompt.id == pending[k]) by {
            assert(document_at(dir, disk, pending[k]) is Some ==> document_at(
                dir,
                disk,
                pending[k],
            )->0.id == pending[k]);
        }
        lemma_documents_distinct(dir, disk, pending);
        assert forall|i: int| 0 <= i < found.len() implies records.get((#[trigger] found[i]).id)
            == Some(found[i]) by {
            assert(found.contains(found[i]));
            lemma_documents_origin(dir, disk, pending, found[i]);
            let k = choose|k: int|
                0 <= k < pending.len() && document_at(dir, disk, #[trigger] pending[k]) == Some(
                    found[i],
                );
            assert(document_at(dir, disk, pending[k]) is Some);
        }
        assert forall|id: PromptId| #[trigger] records.prompts.contains_key(id) implies found.contains(
            records.prompts[id],
        ) by {
            let name = file_name_of(id);
            assert(disk.files.contains_key(joined(dir, name)));
            let k = choose|k: int|
                0 <= k < entries.len() && entries[k].is_file && #[trigger] entries[k].file_name
                    == name;
            lemma_pending_complete(entries, k, id);
            let at = choose|i: int| 0 <= i < pending.len() && pending[i] == id;
            lemma_documents_complete(dir, disk, pending, at, records.prompts[id]);
        }
    } else {
        let found = Seq::<PromptView>::empty();
        assert forall|id: PromptId| !(#[trigger] records.prompts.contains_key(id)) by {
            if document_at(dir, disk, id) is Some {
                assert(disk.files.contains_key(prompt_path(dir, id)));
            }
        }
    }
}

/// The file store keeps the storage contract: on a file system in the
/// state in which it leaves one, it gives for every call the reply that the
/// contract owes for the records that the files hold, it leaves behind the
/// records that the contract says, and it leaves the file system in such a
/// state again.
pub proof fn law_file_store_keeps_contract(
    dir: Seq<char>,
    disk: Disk,
    call: StorageCallView,
    entries: Seq<DirEntryView>,
)
    requires
        is_sound(dir, disk),
        is_scan_of(dir, disk, entries),
    ensures
        answered(dir, disk, call, entries) matches Some(reply) && is_owed(
            records_on(dir, disk),
            call,
            reply,
        ),
        records_on(dir, left_behind(dir, disk, call)) == records_after(records_on(dir, disk), call),
        is_sound(dir, left_behind(dir, disk, call)),
{
    let records = records_on(dir, disk);
    match call {
        StorageCallView::List => {
            lemma_lists_every_record(dir, disk, entries);
        },
        StorageCallView::Get { id } => {
            lemma_retrieved(dir, disk, id);
            assert(disk.files.contains_key(prompt_path(dir, id)) ==> document_at(dir, disk, id)
                is Some);
        },
        StorageCallView::Save { prompt } => {
            lemma_saved(dir, disk, prompt);
            let after = saved(dir, disk, prompt).disk;
            law_save_keeps_documents_in_place(dir, disk, prompt);
            lemma_paths_distinct(dir, prompt.id, prompt.id);
            assert forall|id: PromptId| document_at(dir, after, id) == (if id == prompt.id {
                Some(prompt)
            } else {
                document_at(dir, disk, id)
            }) by {
                lemma_paths_distinct(dir, prompt.id, id);
                lemma_paths_distinct(dir, id, prompt.id);
            }
            assert(records_on(dir, after).prompts =~= records.save(prompt).prompts);
            assert forall|id: PromptId| #[trigger]
                after.files.contains_key(prompt_path(dir, id)) implies document_at(dir, after, id)
                is Some by {
                lemma_paths_distinct(dir, prompt.id, id);
                lemma_paths_distinct(dir, id, prompt.id);
                if id != prompt.id {
                    assert(disk.files.contains_key(prompt_path(dir, id)));
                }
            }
        },
        StorageCallView::Delete { id } => {
            let after = deleted(dir, disk, id).disk;
            law_delete_keeps_documents_in_place(dir, disk, id);
            lemma_paths_distinct(dir, id, id);
            assert(disk.files.contains_key(prompt_path(dir, id)) ==> document_at(dir, disk, id)
                is Some);
            assert forall|other: PromptId| document_at(dir, after, other) == (if other == id {
                None
            } else {
                document_at(dir, disk, other)
            }) by {
                lemma_paths_distinct(dir, id, other);
                lemma_paths_distinct(dir, other, id);
            }
            assert(records_on(dir, after).prompts =~= records.delete(id).prompts);
            assert forall|other: PromptId| #[trigger]
                after.files.contains_key(prompt_path(dir, other)) implies document_at(
                dir,
                after,
                other,
            ) is Some by {
                lemma_paths_distinct(dir, id, other);
                lemma_paths_distinct(dir, other, id);
                assert(disk.files.contains_key(prompt_path(dir, other)));
            }
        },
    }
}

/// An empty file system is in the state in which the file store leaves
/// one, and holds no records.
pub proof fn law_empty_disk_is_sound(dir: Seq<char>, disk: Disk)
    requires
        disk.files.dom() == Set::<Seq<char>>::empty(),
    ensures
        is_sound(dir, disk),
        records_on(dir, disk) == Records::empty(),
{
    assert forall|path: Seq<char>| !disk.files.contains_key(path) by {
        assert(!disk.files.dom().contains(path));
    }
    assert(records_on(dir, disk).prompts =~= Records::empty().prompts);
}

/// A draft is never listed: its name is not the file name of a prompt. A
/// draft that a failed save leaves behind is replaced by the next save of
/// that prompt.
pub proof fn law_drafts_are_not_listed(id: PromptId)
    ensures
        recognized(file_name_of(id) + draft_suffix()) is None,
{
    reveal_strlit(".json");
    reveal_strlit(".tmp");
    let name = file_name_of(id) + draft_suffix();
    assert(name.len() == 45);
    assert(name.subrange(40, 45)[4] == 'p');
    assert(document_suffix()[4] == 'n');
}

} // verus!
