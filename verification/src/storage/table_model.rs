//! The relational store against a database that does what it is asked:
//! what each operation then returns and leaves behind, and the laws of the
//! storage contract that follow.

use crate::models::ident::{canonical_text, lemma_canonical_text_injective, PromptId};
use crate::models::prompt::PromptView;
use crate::storage::postgres::{
    delete_outcome, get_outcome, init_outcome, law_row_round_trip, list_outcome, prompt_of,
    row_defect, row_of, rows_read, save_outcome, DbReplyView, DbRequestView, PromptRowView,
};
use crate::storage::contract::{is_owed, records_after, Records};
use crate::storage::{Operation, StorageCallView, StorageErrorView, StorageReplyView};
use vstd::prelude::*;

verus! {

/// The table: its rows by their keys.
pub struct Table {
    pub rows: Map<Seq<char>, PromptRowView>,
}

impl Table {
    /// Every row stands under its own key.
    pub open spec fn well_formed(self) -> bool {
        forall|key: Seq<char>| #[trigger] self.rows.contains_key(key) ==> self.rows[key].id == key
    }

    /// The table without rows.
    pub open spec fn empty() -> Table {
        Table { rows: Map::empty() }
    }
}

/// A selection of all rows reports each row of the table once.
pub open spec fn is_selection_of(table: Table, rows: Seq<PromptRowView>) -> bool {
    &&& forall|i: int, j: int| 0 <= i < j < rows.len() ==> rows[i].id != rows[j].id
    &&& forall|i: int|
        0 <= i < rows.len() ==> table.rows.contains_key(#[trigger] rows[i].id)
            && table.rows[rows[i].id] == rows[i]
    &&& forall|key: Seq<char>| #[trigger]
        table.rows.contains_key(key) ==> exists|i: int|
            0 <= i < rows.len() && #[trigger] rows[i].id == key
}

/// What the database answers to a statement, `selection` being what a
/// selection of all rows reports.
pub open spec fn db_reply_to(
    table: Table,
    request: DbRequestView,
    selection: Seq<PromptRowView>,
) -> DbReplyView {
    match request {
        DbRequestView::CreateTable => DbReplyView::Affected { count: 0 },
        DbRequestView::SelectAll => DbReplyView::Rows { rows: selection },
        DbRequestView::SelectById { id } => DbReplyView::Rows {
            rows: if table.rows.contains_key(id) {
                seq![table.rows[id]]
            } else {
                Seq::empty()
            },
        },
        DbRequestView::Upsert { row } => DbReplyView::Affected { count: 1 },
        DbRequestView::DeleteById { id } => DbReplyView::Affected {
            count: if table.rows.contains_key(id) {
                1
            } else {
                0
            },
        },
    }
}

/// What a statement leaves behind in the table.
pub open spec fn table_after(table: Table, request: DbRequestView) -> Table {
    match request {
        DbRequestView::Upsert { row } => Table { rows: table.rows.insert(row.id, row) },
        DbRequestView::DeleteById { id } => Table { rows: table.rows.remove(id) },
        _ => table,
    }
}

/// The statement of a retrieval.
pub open spec fn selection_of(id: PromptId) -> DbRequestView {
    DbRequestView::SelectById { id: canonical_text(id.bits) }
}

/// The statement of a save.
pub open spec fn upsert_of(prompt: PromptView) -> DbRequestView {
    DbRequestView::Upsert { row: row_of(prompt) }
}

/// The statement of a removal.
pub open spec fn deletion_of(id: PromptId) -> DbRequestView {
    DbRequestView::DeleteById { id: canonical_text(id.bits) }
}

/// What the retrieval of the prompt with the given identifier returns.
pub open spec fn retrieved(table: Table, id: PromptId) -> Result<
    Option<PromptView>,
    StorageErrorView,
> {
    get_outcome(id, db_reply_to(table, selection_of(id), Seq::empty()))
}

/// What the save of a prompt returns.
pub open spec fn save_reported(table: Table, prompt: PromptView) -> Result<(), StorageErrorView> {
    save_outcome(prompt.id, db_reply_to(table, upsert_of(prompt), Seq::empty()))
}

/// The table after the save of a prompt.
pub open spec fn saved(table: Table, prompt: PromptView) -> Table {
    table_after(table, upsert_of(prompt))
}

/// What the removal of the prompt with the given identifier returns.
pub open spec fn delete_reported(table: Table, id: PromptId) -> Result<bool, StorageErrorView> {
    delete_outcome(id, db_reply_to(table, deletion_of(id), Seq::empty()))
}

/// The table after the removal of the prompt with the given identifier.
pub open spec fn deleted(table: Table, id: PromptId) -> Table {
    table_after(table, deletion_of(id))
}

/// What a listing returns, `selection` being what the selection of all
/// rows reports.
pub open spec fn listed(table: Table, selection: Seq<PromptRowView>) -> Result<
    Seq<PromptView>,
    StorageErrorView,
> {
    list_outcome(db_reply_to(table, DbRequestView::SelectAll, selection))
}

/// The outcome of a retrieval that found the prompt.
pub open spec fn found(prompt: PromptView) -> Result<Option<PromptView>, StorageErrorView> {
    Ok(Some(prompt))
}

/// The outcome of a retrieval that found no record.
pub open spec fn not_found() -> Result<Option<PromptView>, StorageErrorView> {
    Ok(None)
}

/// The outcome of a removal, which reports whether a record existed.
pub open spec fn removal(existed: bool) -> Result<bool, StorageErrorView> {
    Ok(existed)
}

/// No statement moves a row from under its own key.
pub proof fn law_rows_keep_their_keys(table: Table, request: DbRequestView)
    requires
        table.well_formed(),
    ensures
        table_after(table, request).well_formed(),
{
}

/// The statement that prepares the store changes no row, however often it
/// is executed.
pub proof fn law_init_changes_nothing(table: Table)
    ensures
        table_after(table, DbRequestView::CreateTable) == table,
        init_outcome(db_reply_to(table, DbRequestView::CreateTable, Seq::empty())) == Ok::<
            (),
            StorageErrorView,
        >(()),
{
}

/// Where every row stands under its own key, a retrieval that finds a
/// prompt finds one with the identifier that was asked for.
pub proof fn law_found_has_the_id(table: Table, id: PromptId)
    requires
        table.well_formed(),
    ensures
        retrieved(table, id) matches Ok(Some(prompt)) ==> prompt.id == id,
{
    crate::models::ident::lemma_canonical_id_of_text(id);
}

/// A prompt that was saved is retrieved as it was saved, with its
/// variables in their order.
pub proof fn law_save_then_get(table: Table, prompt: PromptView)
    ensures
        save_reported(table, prompt) == Ok::<(), StorageErrorView>(()),
        retrieved(saved(table, prompt), prompt.id) == found(prompt),
{
    law_row_round_trip(Operation::Get, prompt);
}

/// Where no row stands for an identifier, its retrieval finds nothing, and
/// its removal reports that no record existed and changes nothing.
pub proof fn law_absent_id(table: Table, id: PromptId)
    requires
        !table.rows.contains_key(canonical_text(id.bits)),
    ensures
        retrieved(table, id) == not_found(),
        delete_reported(table, id) == removal(false),
        deleted(table, id) == table,
{
    assert(deleted(table, id).rows =~= table.rows);
}

/// Saving the same prompt twice leaves what saving it once leaves.
pub proof fn law_save_idempotent(table: Table, prompt: PromptView)
    ensures
        saved(saved(table, prompt), prompt) == saved(table, prompt),
{
    assert(saved(saved(table, prompt), prompt).rows =~= saved(table, prompt).rows);
}

/// A save under an identifier that is in use replaces the record whole:
/// the retrieval returns the later prompt.
pub proof fn law_save_replaces(table: Table, first: PromptView, second: PromptView)
    requires
        first.id == second.id,
    ensures
        retrieved(saved(saved(table, first), second), first.id) == found(second),
{
    law_save_then_get(saved(table, first), second);
}

/// The removal of a saved prompt reports that a record existed; after it
/// the retrieval finds nothing, and a second removal reports that no
/// record existed.
pub proof fn law_delete_after_save(table: Table, prompt: PromptView)
    ensures
        delete_reported(saved(table, prompt), prompt.id) == removal(true),
        retrieved(deleted(saved(table, prompt), prompt.id), prompt.id) == not_found(),
        delete_reported(deleted(saved(table, prompt), prompt.id), prompt.id) == removal(false),
{
}

/// A save under one identifier leaves the record of every other
/// identifier as it was.
pub proof fn law_save_keeps_others(table: Table, prompt: PromptView, other: PromptId)
    requires
        other != prompt.id,
    ensures
        retrieved(saved(table, prompt), other) == retrieved(table, other),
{
    if canonical_text(other.bits) == canonical_text(prompt.id.bits) {
        lemma_canonical_text_injective(other.bits, prompt.id.bits);
    }
}

/// The table after each of the prompts was saved, in order.
pub open spec fn saved_all(table: Table, prompts: Seq<PromptView>) -> Table
    decreases prompts.len(),
{
    if prompts.len() == 0 {
        table
    } else {
        saved(saved_all(table, prompts.drop_last()), prompts.last())
    }
}

/// No two of the prompts share an identifier.
pub open spec fn distinct_ids(prompts: Seq<PromptView>) -> bool {
    forall|i: int, j: int| 0 <= i < j < prompts.len() ==> prompts[i].id != prompts[j].id
}

/// A listing returns exactly the given prompts: as many, and each of them.
pub open spec fn lists_exactly(
    outcome: Result<Seq<PromptView>, StorageErrorView>,
    prompts: Seq<PromptView>,
) -> bool {
    outcome matches Ok(found) && found.len() == prompts.len() && (forall|i: int|
        0 <= i < found.len() ==> prompts.contains(#[trigger] found[i])) && (forall|j: int|
        0 <= j < prompts.len() ==> found.contains(#[trigger] prompts[j]))
}

/// The rows are the rows of the prompts, each under its key, and no
/// others.
pub open spec fn holds_exactly(rows: Map<Seq<char>, PromptRowView>, prompts: Seq<PromptView>) -> bool {
    &&& forall|key: Seq<char>| #[trigger]
        rows.contains_key(key) ==> exists|j: int|
            0 <= j < prompts.len() && key == canonical_text(#[trigger] prompts[j].id.bits)
    &&& forall|j: int|
        0 <= j < prompts.len() ==> rows.contains_key(canonical_text(#[trigger] prompts[j].id.bits))
            && rows[canonical_text(prompts[j].id.bits)] == row_of(prompts[j])
}

/// After saves of prompts with distinct identifiers to an empty table, the
/// rows are the rows of those prompts.
proof fn lemma_saved_all_rows(prompts: Seq<PromptView>)
    requires
        distinct_ids(prompts),
    ensures
        holds_exactly(saved_all(Table::empty(), prompts).rows, prompts),
    decreases prompts.len(),
{
    if prompts.len() > 0 {
        let earlier = prompts.drop_last();
        let last = prompts.last();
        lemma_saved_all_rows(earlier);
        let before = saved_all(Table::empty(), earlier).rows;
        let rows = saved_all(Table::empty(), prompts).rows;
        assert(rows == before.insert(canonical_text(last.id.bits), row_of(last)));
        assert forall|key: Seq<char>| #[trigger] rows.contains_key(key) implies exists|j: int|
            0 <= j < prompts.len() && key == canonical_text(#[trigger] prompts[j].id.bits) by {
            if key == canonical_text(last.id.bits) {
                assert(prompts[prompts.len() - 1].id == last.id);
            } else {
                assert(before.contains_key(key));
                let j = choose|j: int|
                    0 <= j < earlier.len() && key == canonical_text(#[trigger] earlier[j].id.bits);
                assert(prompts[j].id == earlier[j].id);
            }
        }
        assert forall|j: int| 0 <= j < prompts.len() implies rows.contains_key(
            canonical_text(#[trigger] prompts[j].id.bits),
        ) && rows[canonical_text(prompts[j].id.bits)] == row_of(prompts[j]) by {
            if j < prompts.len() - 1 {
                assert(earlier[j] == prompts[j]);
                assert(earlier[j].id == prompts[j].id);
                if canonical_text(prompts[j].id.bits) == canonical_text(last.id.bits) {
                    lemma_canonical_text_injective(prompts[j].id.bits, last.id.bits);
                }
            }
        }
    }
}

/// Rows without defect are read as their prompts, in their order.
proof fn lemma_rows_read_all(operation: Operation, rows: Seq<PromptRowView>)
    requires
        forall|i: int| 0 <= i < rows.len() ==> row_defect(#[trigger] rows[i]) is None,
    ensures
        rows_read(operation, rows) == Ok::<Seq<PromptView>, StorageErrorView>(
            Seq::new(rows.len(), |i: int| prompt_of(rows[i])),
        ),
    decreases rows.len(),
{
    if rows.len() > 0 {
        let earlier = rows.drop_last();
        assert forall|i: int| 0 <= i < earlier.len() implies row_defect(#[trigger] earlier[i])
            is None by {
            assert(earlier[i] == rows[i]);
        }
        lemma_rows_read_all(operation, earlier);
        assert(row_defect(rows[rows.len() - 1]) is None);
        assert(Seq::new(earlier.len(), |i: int| prompt_of(earlier[i])).push(prompt_of(rows.last()))
            =~= Seq::new(rows.len(), |i: int| prompt_of(rows[i])));
    } else {
        assert(Seq::new(rows.len(), |i: int| prompt_of(rows[i])) =~= Seq::<PromptView>::empty());
    }
}

/// After saves of prompts with distinct identifiers to an empty table, a
/// listing returns exactly those prompts, in whatever order the database
/// reports the rows.
pub proof fn law_list_after_saves(prompts: Seq<PromptView>, selection: Seq<PromptRowView>)
    requires
        distinct_ids(prompts),
        is_selection_of(saved_all(Table::empty(), prompts), selection),
    ensures
        lists_exactly(listed(saved_all(Table::empty(), prompts), selection), prompts),
{
    let table = saved_all(Table::empty(), prompts);
    lemma_saved_all_rows(prompts);
    assert forall|i: int| 0 <= i < selection.len() implies row_defect(#[trigger] selection[i])
        is None && prompts.contains(prompt_of(selection[i])) && selection[i] == row_of(
        prompt_of(selection[i]),
    ) by {
        let key = selection[i].id;
        assert(table.rows.contains_key(key));
        let j = choose|j: int|
            0 <= j < prompts.len() && key == canonical_text(#[trigger] prompts[j].id.bits);
        assert(table.rows[canonical_text(prompts[j].id.bits)] == row_of(prompts[j]));
        law_row_round_trip(Operation::List, prompts[j]);
        assert(selection[i] == row_of(prompts[j]));
    }
    lemma_rows_read_all(Operation::List, selection);
    let found = Seq::new(selection.len(), |i: int| prompt_of(selection[i]));
    assert(listed(table, selection) == Ok::<Seq<PromptView>, StorageErrorView>(found));
    assert forall|j: int| 0 <= j < prompts.len() implies found.contains(#[trigger] prompts[j]) by {
        let key = canonical_text(prompts[j].id.bits);
        assert(table.rows.contains_key(key));
        let i = choose|i: int| 0 <= i < selection.len() && #[trigger] selection[i].id == key;
        assert(table.rows[selection[i].id] == selection[i]);
        law_row_round_trip(Operation::List, prompts[j]);
        assert(found[i] == prompts[j]);
    }
    assert forall|i: int| 0 <= i < found.len() implies prompts.contains(#[trigger] found[i]) by {
        assert(found[i] == prompt_of(selection[i]));
    }
    assert(found.no_duplicates()) by {
        assert forall|i: int, j: int|
            0 <= i < found.len() && 0 <= j < found.len() && i != j implies found[i] != found[j] by {
            assert(found[i] == prompt_of(selection[i]) && found[j] == prompt_of(selection[j]));
            assert(selection[i] == row_of(found[i]) && selection[j] == row_of(found[j]));
            if i < j {
                assert(selection[i].id != selection[j].id);
            } else {
                assert(selection[j].id != selection[i].id);
            }
        }
    }
    assert(prompts.no_duplicates()) by {
        assert forall|i: int, j: int|
            0 <= i < prompts.len() && 0 <= j < prompts.len() && i != j implies prompts[i]
            != prompts[j] by {
            if i < j {
                assert(prompts[i].id != prompts[j].id);
            } else {
                assert(prompts[j].id != prompts[i].id);
            }
        }
    }
    assert(found.to_set() =~= prompts.to_set()) by {
        assert forall|prompt: PromptView| found.to_set().contains(prompt)
            == prompts.to_set().contains(prompt) by {
            if found.contains(prompt) {
                let i = choose|i: int| 0 <= i < found.len() && found[i] == prompt;
                assert(prompts.contains(found[i]));
            }
            if prompts.contains(prompt) {
                let j = choose|j: int| 0 <= j < prompts.len() && prompts[j] == prompt;
                assert(found.contains(prompts[j]));
            }
        }
    }
    found.unique_seq_to_set();
    prompts.unique_seq_to_set();
}

/// A listing of an empty table returns no prompt.
pub proof fn law_list_of_empty_table(selection: Seq<PromptRowView>)
    requires
        is_selection_of(Table::empty(), selection),
    ensures
        listed(Table::empty(), selection) == Ok::<Seq<PromptView>, StorageErrorView>(Seq::empty()),
{
    law_list_after_saves(Seq::empty(), selection);
    assert(listed(Table::empty(), selection)->Ok_0 =~= Seq::empty());
}

/// The records that the table holds: under each identifier the prompt of
/// the row whose key is the identifier's canonical text.
pub open spec fn records_in(table: Table) -> Records {
    Records {
        prompts: Map::new(
            |id: PromptId| table.rows.contains_key(canonical_text(id.bits)),
            |id: PromptId| prompt_of(table.rows[canonical_text(id.bits)]),
        ),
    }
}

/// A table in the state in which the relational store leaves it: every
/// row stands under its own key and is the row of the prompt that it
/// holds.
pub open spec fn is_sound(table: Table) -> bool {
    forall|key: Seq<char>| #[trigger]
        table.rows.contains_key(key) ==> table.rows[key].id == key && row_defect(table.rows[key])
            is None && row_of(prompt_of(table.rows[key])) == table.rows[key]
}

/// The reply of the relational store to a storage call, `selection` being
/// what the selection of all rows reports.
pub open spec fn answered(
    table: Table,
    call: StorageCallView,
    selection: Seq<PromptRowView>,
) -> StorageReplyView {
    match call {
        StorageCallView::List => StorageReplyView::Listed { result: listed(table, selection) },
        StorageCallView::Get { id } => StorageReplyView::Found { result: retrieved(table, id) },
        StorageCallView::Save { prompt } => StorageReplyView::Saved {
            result: save_reported(table, prompt),
        },
        StorageCallView::Delete { id } => StorageReplyView::Deleted {
            result: delete_reported(table, id),
        },
    }
}

/// The table that the relational store leaves behind after a storage
/// call.
pub open spec fn left_behind(table: Table, call: StorageCallView) -> Table {
    match call {
        StorageCallView::Save { prompt } => saved(table, prompt),
        StorageCallView::Delete { id } => deleted(table, id),
        _ => table,
    }
}

/// The relational store keeps the storage contract: on a table in the
/// state in which it leaves one, it gives for every call the reply that the
/// contract owes for the records that the table holds, it leaves behind the
/// records that the contract says, and it leaves the table in such a state
/// again.
pub proof fn law_relational_store_keeps_contract(
    table: Table,
    call: StorageCallView,
    selection: Seq<PromptRowView>,
)
    requires
        is_sound(table),
        is_selection_of(table, selection),
    ensures
        is_owed(records_in(table), call, answered(table, call, selection)),
        records_in(left_behind(table, call)) == records_after(records_in(table), call),
        is_sound(left_behind(table, call)),
{
    let records = records_in(table);
    match call {
        StorageCallView::List => {
            assert forall|i: int| 0 <= i < selection.len() implies row_defect(
                #[trigger] selection[i],
            ) is None && row_of(prompt_of(selection[i])) == selection[i] by {
                assert(table.rows.contains_key(selection[i].id));
            }
            lemma_rows_read_all(Operation::List, selection);
            let found = Seq::new(selection.len(), |i: int| prompt_of(selection[i]));
            assert forall|i: int, j: int|
                0 <= i < found.len() && 0 <= j < found.len() && i != j implies found[i]
                != found[j] by {
                assert(selection[i] == row_of(found[i]) && selection[j] == row_of(found[j]));
                if i < j {
                    assert(selection[i].id != selection[j].id);
                } else {
                    assert(selection[j].id != selection[i].id);
                }
            }
            assert forall|i: int| 0 <= i < found.len() implies records.get((#[trigger] found[i]).id)
                == Some(found[i]) by {
                assert(selection[i] == row_of(found[i]));
                assert(table.rows.contains_key(selection[i].id));
            }
            assert forall|id: PromptId| #[trigger] records.prompts.contains_key(id) implies found.contains(
                records.prompts[id],
            ) by {
                let key = canonical_text(id.bits);
                let i = choose|i: int| 0 <= i < selection.len() && #[trigger] selection[i].id == key;
                assert(table.rows[selection[i].id] == selection[i]);
                assert(found[i] == records.prompts[id]);
            }
        },
        StorageCallView::Get { id } => {},
        StorageCallView::Save { prompt } => {
            law_row_round_trip(Operation::Get, prompt);
            assert forall|id: PromptId| #[trigger]
                canonical_text(id.bits) == canonical_text(prompt.id.bits) implies id
                == prompt.id by {
                lemma_canonical_text_injective(id.bits, prompt.id.bits);
            }
            assert(records_in(saved(table, prompt)).prompts =~= records.save(prompt).prompts);
        },
        StorageCallView::Delete { id } => {
            assert forall|other: PromptId| #[trigger]
                canonical_text(other.bits) == canonical_text(id.bits) implies other == id by {
                lemma_canonical_text_injective(other.bits, id.bits);
            }
            assert(records_in(deleted(table, id)).prompts =~= records.delete(id).prompts);
        },
    }
}

/// The empty table is in the state in which the relational store leaves
/// one, and holds no records.
pub proof fn law_empty_table_is_sound()
    ensures
        is_sound(Table::empty()),
        records_in(Table::empty()) == Records::empty(),
{
    assert(records_in(Table::empty()).prompts =~= Records::empty().prompts);
}

/// Saves under distinct identifiers do not disturb each other, however
/// many they are and in whatever order the database executes their
/// statements, each of which it executes as a whole: every prompt is
/// retrieved as it was saved.
pub proof fn law_saves_in_any_order(table: Table, prompts: Seq<PromptView>, which: int)
    requires
        distinct_ids(prompts),
        0 <= which < prompts.len(),
    ensures
        retrieved(saved_all(table, prompts), prompts[which].id) == found(prompts[which]),
    decreases prompts.len(),
{
    let earlier = prompts.drop_last();
    let last = prompts.last();
    let before = saved_all(table, earlier);
    if which == prompts.len() - 1 {
        law_save_then_get(before, last);
    } else {
        assert forall|i: int, j: int| 0 <= i < j < earlier.len() implies earlier[i].id
            != earlier[j].id by {
            assert(earlier[i] == prompts[i] && earlier[j] == prompts[j]);
        }
        law_saves_in_any_order(table, earlier, which);
        assert(earlier[which] == prompts[which]);
        assert(prompts[which].id != prompts[prompts.len() - 1].id);
        law_save_keeps_others(before, last, prompts[which].id);
    }
}

/// Saves, however many and in whatever order, leave the record of every
/// identifier that none of them carries as it was.
pub proof fn law_saves_keep_others(table: Table, prompts: Seq<PromptView>, other: PromptId)
    requires
        forall|i: int| 0 <= i < prompts.len() ==> other != (#[trigger] prompts[i]).id,
    ensures
        retrieved(saved_all(table, prompts), other) == retrieved(table, other),
    decreases prompts.len(),
{
    if prompts.len() > 0 {
        let earlier = prompts.drop_last();
        assert forall|i: int| 0 <= i < earlier.len() implies other != (#[trigger] earlier[i]).id by {
            assert(earlier[i] == prompts[i]);
        }
        law_saves_keep_others(table, earlier, other);
        assert(other != prompts[prompts.len() - 1].id);
        law_save_keeps_others(saved_all(table, earlier), prompts.last(), other);
    }
}

} // verus!
