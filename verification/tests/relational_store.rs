use std::collections::BTreeMap;

use mcp_prompts_rs::models::ident::PromptId;
use mcp_prompts_rs::models::prompt::Prompt;
use mcp_prompts_rs::storage::postgres::{
    db_failure, from_row, read_rows, to_row, DbReply, DbRequest, JsonColumn, PostgresStorage,
    PromptRow, SqlValue, MAX_CONNECTIONS,
};
use mcp_prompts_rs::storage::{ErrorKind, Operation, StorageError};

const ID_A: PromptId = PromptId { bits: 0xa1a2a3a4_b1b2_c1c2_d1d2_d3d4d5d6d7d8 };
const ID_B: PromptId = PromptId { bits: 0x00000000_0000_4000_8000_000000000001 };
const TEXT_A: &str = "a1a2a3a4-b1b2-c1c2-d1d2-d3d4d5d6d7d8";

fn prompt(id: PromptId, name: &str) -> Prompt {
    Prompt {
        id,
        name: name.to_string(),
        content: format!("content of {}", name),
        category: Some("writing".to_string()),
        variables: Some(vec!["a".to_string(), "b".to_string(), "c".to_string()]),
        description: Some("described".to_string()),
    }
}

fn row(id: &str) -> PromptRow {
    PromptRow {
        id: id.to_string(),
        name: Some("n".to_string()),
        content: Some("c".to_string()),
        category: None,
        variables: JsonColumn::Null,
        description: None,
    }
}

/// A table in memory that does what it is asked.
struct Table {
    rows: BTreeMap<String, PromptRow>,
}

impl Table {
    fn serve(&mut self, request: DbRequest) -> DbReply {
        match request {
            DbRequest::CreateTable => DbReply::Affected { count: 0 },
            DbRequest::SelectAll => DbReply::Rows { rows: self.rows.values().cloned().collect() },
            DbRequest::SelectById { id } => DbReply::Rows { rows: self.rows.get(&id).cloned().into_iter().collect() },
            DbRequest::Upsert { row } => {
                self.rows.insert(row.id.clone(), row);
                DbReply::Affected { count: 1 }
            }
            DbRequest::DeleteById { id } => DbReply::Affected {
                count: if self.rows.remove(&id).is_some() { 1 } else { 0 },
            },
        }
    }
}

fn get(store: &PostgresStorage, table: &mut Table, id: PromptId) -> Result<Option<Prompt>, StorageError> {
    let reply = table.serve(store.get_prompt(&id));
    store.get_prompt_result(&id, reply)
}

fn save(store: &PostgresStorage, table: &mut Table, prompt: &Prompt) -> Result<(), StorageError> {
    let reply = table.serve(store.save_prompt(prompt));
    store.save_prompt_result(&prompt.id, reply)
}

fn delete(store: &PostgresStorage, table: &mut Table, id: PromptId) -> Result<bool, StorageError> {
    let reply = table.serve(store.delete_prompt(&id));
    store.delete_prompt_result(&id, reply)
}

fn list(store: &PostgresStorage, table: &mut Table) -> Result<Vec<Prompt>, StorageError> {
    let reply = table.serve(store.list_prompts());
    store.list_prompts_result(reply)
}

fn fresh() -> (PostgresStorage, Table) {
    (PostgresStorage::new("postgres://localhost/prompts"), Table { rows: BTreeMap::new() })
}

#[test]
fn the_pool_is_bounded_by_five_connections() {
    let store = PostgresStorage::new("postgres://localhost/prompts");
    assert_eq!(store.database_url, "postgres://localhost/prompts");
    assert_eq!(store.max_connections, 5);
    assert_eq!(MAX_CONNECTIONS, 5);
}

#[test]
fn row_of_a_prompt_holds_every_field() {
    let row = to_row(&prompt(ID_A, "a"));
    assert_eq!(row.id, TEXT_A);
    assert_eq!(row.name, Some("a".to_string()));
    assert_eq!(row.content, Some("content of a".to_string()));
    assert_eq!(row.category, Some("writing".to_string()));
    assert_eq!(
        row.variables,
        JsonColumn::Strings(vec!["a".to_string(), "b".to_string(), "c".to_string()])
    );
    assert_eq!(row.description, Some("described".to_string()));
}

#[test]
fn row_of_a_prompt_without_variables_holds_null() {
    let mut bare = prompt(ID_A, "a");
    bare.variables = None;
    bare.category = None;
    bare.description = None;
    let row = to_row(&bare);
    assert_eq!(row.variables, JsonColumn::Null);
    assert_eq!(row.category, None);
    assert_eq!(row.description, None);
    assert_eq!(from_row(Operation::Get, &row), Ok(bare));
}

#[test]
fn variables_round_trip_keeps_order() {
    let mut saved = prompt(ID_A, "a");
    saved.variables = Some(vec!["a".to_string(), "b".to_string(), "c".to_string()]);
    let loaded = from_row(Operation::Get, &to_row(&saved)).unwrap();
    assert_eq!(loaded.variables, Some(vec!["a".to_string(), "b".to_string(), "c".to_string()]));
    assert_ne!(loaded.variables, Some(vec!["b".to_string(), "a".to_string(), "c".to_string()]));
    assert_eq!(loaded, saved);
}

#[test]
fn an_empty_list_of_variables_is_not_an_absent_one() {
    let mut saved = prompt(ID_A, "a");
    saved.variables = Some(vec![]);
    assert_eq!(to_row(&saved).variables, JsonColumn::Strings(vec![]));
    assert_eq!(from_row(Operation::Get, &to_row(&saved)).unwrap().variables, Some(vec![]));
}

#[test]
fn a_null_column_gives_no_variables() {
    let mut bare = row(TEXT_A);
    bare.variables = JsonColumn::Null;
    assert_eq!(from_row(Operation::Get, &bare).unwrap().variables, None);
}

#[test]
fn a_column_that_holds_no_list_of_texts_is_a_validation_error() {
    let mut other = row(TEXT_A);
    other.variables = JsonColumn::Other;
    let error = from_row(Operation::Get, &other).unwrap_err();
    assert_eq!(error.kind, ErrorKind::Validation);
    assert_eq!(error.operation, Operation::Get);
    assert_eq!(error.id, Some(ID_A));
    assert_eq!(error.cause, "the variables of the row are not a list of texts");
    assert!(error.context.is_empty());

    let store = PostgresStorage::new("postgres://localhost/prompts");
    let error = store.get_prompt_result(&ID_A, DbReply::Rows { rows: vec![other.clone()] }).unwrap_err();
    assert_eq!(error.kind, ErrorKind::Validation);
    let rows = vec![to_row(&prompt(ID_B, "b")), other];
    let error = store.list_prompts_result(DbReply::Rows { rows }).unwrap_err();
    assert_eq!(error.kind, ErrorKind::Validation);
    assert_eq!(error.operation, Operation::List);

    let mut nameless = row(TEXT_A);
    nameless.name = None;
    nameless.variables = JsonColumn::Other;
    assert_eq!(from_row(Operation::Get, &nameless).unwrap_err().cause, "the row has no name");
}

#[test]
fn a_row_with_a_malformed_key_is_a_validation_error() {
    for key in ["", "not-a-uuid", "A1A2A3A4-B1B2-C1C2-D1D2-D3D4D5D6D7D8", "a1a2a3a4b1b2c1c2d1d2d3d4d5d6d7d8"] {
        let error = from_row(Operation::List, &row(key)).unwrap_err();
        assert_eq!(error.kind, ErrorKind::Validation);
        assert_eq!(error.operation, Operation::List);
        assert_eq!(error.id, None);
        assert_eq!(error.cause, "the key of the row is not an identifier");
    }
}

#[test]
fn a_row_without_name_or_content_is_a_validation_error() {
    let mut nameless = row(TEXT_A);
    nameless.name = None;
    let error = from_row(Operation::Get, &nameless).unwrap_err();
    assert_eq!(error.kind, ErrorKind::Validation);
    assert_eq!(error.operation, Operation::Get);
    assert_eq!(error.id, Some(ID_A));
    assert_eq!(error.cause, "the row has no name");

    let mut empty = row(TEXT_A);
    empty.content = None;
    let error = from_row(Operation::Get, &empty).unwrap_err();
    assert_eq!(error.kind, ErrorKind::Validation);
    assert_eq!(error.id, Some(ID_A));
    assert_eq!(error.cause, "the row has no content");

    let mut both = row(TEXT_A);
    both.name = None;
    both.content = None;
    assert_eq!(from_row(Operation::Get, &both).unwrap_err().cause, "the row has no name");
}

#[test]
fn rows_are_read_in_their_order_up_to_the_first_defect() {
    let good_a = to_row(&prompt(ID_A, "a"));
    let good_b = to_row(&prompt(ID_B, "b"));
    assert_eq!(
        read_rows(Operation::List, &vec![good_b.clone(), good_a.clone()]),
        Ok(vec![prompt(ID_B, "b"), prompt(ID_A, "a")])
    );
    assert_eq!(read_rows(Operation::List, &Vec::new()), Ok(vec![]));

    let mut nameless = good_a.clone();
    nameless.name = None;
    let error = read_rows(Operation::List, &vec![good_b, nameless, row("bad key")]).unwrap_err();
    assert_eq!(error.cause, "the row has no name");
}

#[test]
fn statements_name_table_and_columns() {
    assert_eq!(
        DbRequest::CreateTable.sql(),
        "CREATE TABLE IF NOT EXISTS prompts (id TEXT PRIMARY KEY, name TEXT, content TEXT, category TEXT, variables JSONB, description TEXT, created_at TIMESTAMPTZ NOT NULL DEFAULT NOW(), updated_at TIMESTAMPTZ NOT NULL DEFAULT NOW())"
    );
    assert_eq!(
        DbRequest::SelectAll.sql(),
        "SELECT id, name, content, category, variables, description FROM prompts"
    );
    assert_eq!(
        DbRequest::SelectById { id: TEXT_A.to_string() }.sql(),
        "SELECT id, name, content, category, variables, description FROM prompts WHERE id = $1"
    );
    assert_eq!(
        DbRequest::Upsert { row: row(TEXT_A) }.sql(),
        "INSERT INTO prompts (id, name, content, category, variables, description) VALUES ($1, $2, $3, $4, $5, $6) ON CONFLICT (id) DO UPDATE SET name = EXCLUDED.name, content = EXCLUDED.content, category = EXCLUDED.category, variables = EXCLUDED.variables, description = EXCLUDED.description, updated_at = NOW()"
    );
    assert_eq!(DbRequest::DeleteById { id: TEXT_A.to_string() }.sql(), "DELETE FROM prompts WHERE id = $1");
}

#[test]
fn parameters_stand_in_the_order_of_their_numbers() {
    assert_eq!(DbRequest::CreateTable.parameters(), vec![]);
    assert_eq!(DbRequest::SelectAll.parameters(), vec![]);
    assert_eq!(
        DbRequest::SelectById { id: TEXT_A.to_string() }.parameters(),
        vec![SqlValue::Text(Some(TEXT_A.to_string()))]
    );
    assert_eq!(
        DbRequest::DeleteById { id: TEXT_A.to_string() }.parameters(),
        vec![SqlValue::Text(Some(TEXT_A.to_string()))]
    );
    assert_eq!(
        DbRequest::Upsert { row: to_row(&prompt(ID_A, "a")) }.parameters(),
        vec![
            SqlValue::Text(Some(TEXT_A.to_string())),
            SqlValue::Text(Some("a".to_string())),
            SqlValue::Text(Some("content of a".to_string())),
            SqlValue::Text(Some("writing".to_string())),
            SqlValue::Json(JsonColumn::Strings(vec!["a".to_string(), "b".to_string(), "c".to_string()])),
            SqlValue::Text(Some("described".to_string())),
        ]
    );
    assert_eq!(
        DbRequest::Upsert { row: row(TEXT_A) }.parameters()[3..],
        [SqlValue::Text(None), SqlValue::Json(JsonColumn::Null), SqlValue::Text(None)]
    );
}

#[test]
fn each_operation_is_one_statement() {
    let store = PostgresStorage::new("postgres://localhost/prompts");
    assert_eq!(store.init_schema(), DbRequest::CreateTable);
    assert_eq!(store.list_prompts(), DbRequest::SelectAll);
    assert_eq!(store.get_prompt(&ID_A), DbRequest::SelectById { id: TEXT_A.to_string() });
    assert_eq!(store.delete_prompt(&ID_A), DbRequest::DeleteById { id: TEXT_A.to_string() });
    assert_eq!(
        store.save_prompt(&prompt(ID_A, "a")),
        DbRequest::Upsert { row: to_row(&prompt(ID_A, "a")) }
    );
}

#[test]
fn a_failed_statement_is_an_io_error_of_the_operation() {
    let store = PostgresStorage::new("postgres://localhost/prompts");
    let failed = || DbReply::Failed { detail: "connection refused".to_string() };

    let error = store.init_schema_result(failed()).unwrap_err();
    assert_eq!((error.kind, error.operation, error.id), (ErrorKind::Io, Operation::Init, None));
    assert_eq!(error.cause, "connection refused");

    let error = store.list_prompts_result(failed()).unwrap_err();
    assert_eq!((error.kind, error.operation, error.id), (ErrorKind::Io, Operation::List, None));

    let error = store.get_prompt_result(&ID_A, failed()).unwrap_err();
    assert_eq!((error.kind, error.operation, error.id), (ErrorKind::Io, Operation::Get, Some(ID_A)));

    let error = store.save_prompt_result(&ID_A, failed()).unwrap_err();
    assert_eq!((error.kind, error.operation, error.id), (ErrorKind::Io, Operation::Save, Some(ID_A)));

    let error = store.delete_prompt_result(&ID_A, failed()).unwrap_err();
    assert_eq!((error.kind, error.operation, error.id), (ErrorKind::Io, Operation::Delete, Some(ID_A)));
    assert_eq!(error.cause, "connection refused");
}

#[test]
fn a_reply_that_does_not_answer_the_statement_is_an_io_error() {
    let store = PostgresStorage::new("postgres://localhost/prompts");
    let error = store.get_prompt_result(&ID_A, DbReply::Affected { count: 1 }).unwrap_err();
    assert_eq!(error.kind, ErrorKind::Io);
    assert_eq!(error.cause, "unexpected reply from the database");
    let error = store.save_prompt_result(&ID_A, DbReply::Rows { rows: vec![] }).unwrap_err();
    assert_eq!(error.cause, "unexpected reply from the database");
    let error = store.delete_prompt_result(&ID_A, DbReply::Rows { rows: vec![] }).unwrap_err();
    assert_eq!(error.cause, "unexpected reply from the database");
    let error = store.list_prompts_result(DbReply::Affected { count: 0 }).unwrap_err();
    assert_eq!(error.cause, "unexpected reply from the database");
    let error = store.init_schema_result(DbReply::Rows { rows: vec![] }).unwrap_err();
    assert_eq!(error.cause, "unexpected reply from the database");
    let error = db_failure(Operation::Get, None, DbReply::Failed { detail: "x".to_string() });
    assert_eq!(error.cause, "x");
}

#[test]
fn init_schema_succeeds_whatever_the_count() {
    let store = PostgresStorage::new("postgres://localhost/prompts");
    assert_eq!(store.init_schema_result(DbReply::Affected { count: 0 }), Ok(()));
    assert_eq!(store.init_schema_result(DbReply::Affected { count: 3 }), Ok(()));
}

#[test]
fn get_reads_the_first_row() {
    let store = PostgresStorage::new("postgres://localhost/prompts");
    assert_eq!(store.get_prompt_result(&ID_A, DbReply::Rows { rows: vec![] }), Ok(None));
    let rows = vec![to_row(&prompt(ID_A, "a"))];
    assert_eq!(store.get_prompt_result(&ID_A, DbReply::Rows { rows }), Ok(Some(prompt(ID_A, "a"))));
    let mut nameless = row(TEXT_A);
    nameless.name = None;
    let error = store.get_prompt_result(&ID_A, DbReply::Rows { rows: vec![nameless] }).unwrap_err();
    assert_eq!(error.kind, ErrorKind::Validation);
}

#[test]
fn delete_reports_whether_a_row_was_deleted() {
    let store = PostgresStorage::new("postgres://localhost/prompts");
    assert_eq!(store.delete_prompt_result(&ID_A, DbReply::Affected { count: 0 }), Ok(false));
    assert_eq!(store.delete_prompt_result(&ID_A, DbReply::Affected { count: 1 }), Ok(true));
    assert_eq!(store.delete_prompt_result(&ID_A, DbReply::Affected { count: 2 }), Ok(true));
}

#[test]
fn saved_row_is_retrieved_as_it_was_saved() {
    let (store, mut table) = fresh();
    let saved = prompt(ID_A, "a");
    assert_eq!(save(&store, &mut table, &saved), Ok(()));
    assert_eq!(get(&store, &mut table, ID_A), Ok(Some(saved)));
}

#[test]
fn key_that_was_never_saved_is_absent() {
    let (store, mut table) = fresh();
    assert_eq!(get(&store, &mut table, ID_A), Ok(None));
    assert_eq!(delete(&store, &mut table, ID_A), Ok(false));
    assert_eq!(save(&store, &mut table, &prompt(ID_B, "b")), Ok(()));
    assert_eq!(get(&store, &mut table, ID_A), Ok(None));
    assert_eq!(delete(&store, &mut table, ID_A), Ok(false));
    assert_eq!(table.rows.len(), 1);
}

#[test]
fn upsert_twice_leaves_what_one_upsert_leaves() {
    let (store, mut once) = fresh();
    let (_, mut twice) = fresh();
    let saved = prompt(ID_A, "a");
    assert_eq!(save(&store, &mut once, &saved), Ok(()));
    assert_eq!(save(&store, &mut twice, &saved), Ok(()));
    assert_eq!(save(&store, &mut twice, &saved), Ok(()));
    assert_eq!(once.rows, twice.rows);
}

#[test]
fn a_later_upsert_replaces_the_row_whole() {
    let (store, mut table) = fresh();
    let first = prompt(ID_A, "first");
    let mut second = prompt(ID_A, "second");
    second.category = None;
    second.variables = None;
    second.description = None;
    assert_eq!(save(&store, &mut table, &first), Ok(()));
    assert_eq!(save(&store, &mut table, &second), Ok(()));
    assert_eq!(get(&store, &mut table, ID_A), Ok(Some(second)));
    assert_eq!(table.rows.len(), 1);
}

#[test]
fn delete_removes_the_row_once() {
    let (store, mut table) = fresh();
    assert_eq!(save(&store, &mut table, &prompt(ID_A, "a")), Ok(()));
    assert_eq!(delete(&store, &mut table, ID_A), Ok(true));
    assert_eq!(get(&store, &mut table, ID_A), Ok(None));
    assert_eq!(delete(&store, &mut table, ID_A), Ok(false));
}

#[test]
fn list_of_an_empty_table_is_empty() {
    let (store, mut table) = fresh();
    assert_eq!(list(&store, &mut table), Ok(vec![]));
}

#[test]
fn list_returns_every_saved_row() {
    let (store, mut table) = fresh();
    let mut saved = Vec::new();
    for n in 0..20u128 {
        let one = prompt(PromptId { bits: n * 0x1_0000_0000_0000_0001 + 5 }, &format!("p{}", n));
        assert_eq!(save(&store, &mut table, &one), Ok(()));
        saved.push(one);
    }
    let listed = list(&store, &mut table).unwrap();
    assert_eq!(listed.len(), 20);
    for one in &saved {
        assert!(listed.contains(one));
    }
}

#[test]
fn upserts_under_different_keys_leave_each_other_alone() {
    let (store, mut table) = fresh();
    assert_eq!(save(&store, &mut table, &prompt(ID_A, "a")), Ok(()));
    assert_eq!(save(&store, &mut table, &prompt(ID_B, "b")), Ok(()));
    assert_eq!(get(&store, &mut table, ID_A), Ok(Some(prompt(ID_A, "a"))));
    assert_eq!(get(&store, &mut table, ID_B), Ok(Some(prompt(ID_B, "b"))));
}

#[test]
fn a_pool_that_was_opened_gives_the_store() {
    let store = PostgresStorage::connected("postgres://localhost/prompts", Ok(())).unwrap();
    assert_eq!(store.database_url, "postgres://localhost/prompts");
    assert_eq!(store.max_connections, 5);
}

#[test]
fn a_pool_that_could_not_be_opened_is_an_io_error_of_the_preparation() {
    let outcome = Err("connection refused".to_string());
    let error = PostgresStorage::connected("postgres://localhost/prompts", outcome).unwrap_err();
    assert_eq!(error.kind, ErrorKind::Io);
    assert_eq!(error.operation, Operation::Init);
    assert_eq!(error.id, None);
    assert_eq!(error.cause, "connection refused");
    assert_eq!(
        error.context,
        vec!["Failed to create PostgreSQL connection pool for URL: postgres://localhost/prompts".to_string()]
    );
}

#[test]
fn many_upserts_in_any_order_are_all_retrieved() {
    let saved: Vec<Prompt> =
        (0..7u128).map(|n| prompt(PromptId { bits: 500 + n }, &format!("p{}", n))).collect();
    for rotation in 0..saved.len() {
        let (store, mut table) = fresh();
        for offset in 0..saved.len() {
            let one = &saved[(rotation + offset * 3) % saved.len()];
            assert_eq!(save(&store, &mut table, one), Ok(()));
        }
        for one in &saved {
            assert_eq!(get(&store, &mut table, one.id), Ok(Some(one.clone())));
        }
        assert_eq!(list(&store, &mut table).unwrap().len(), saved.len());
    }
}
