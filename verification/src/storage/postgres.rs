//! The relational store: one table keyed by the prompt's identifier, one
//! row per prompt.
//!
//! The store performs no input or output. For each operation it gives the
//! one statement to execute, with its parameters, and reads the result
//! from the database's reply.

use crate::models::ident::{canonical_id, canonical_text, lemma_canonical_id_of_text, PromptId};
use crate::models::prompt::{Prompt, PromptView};
use crate::storage::{ErrorKind, Operation, StorageError, StorageErrorView};
use crate::text::{concat_text, copy_optional_text, copy_text, copy_texts};
use vstd::prelude::*;

verus! {

/// The relational store's configuration: where the database is, and how
/// many connections its pool may hold at a time.
#[derive(Debug, Clone)]
pub struct PostgresStorage {
    pub database_url: String,
    pub max_connections: u32,
}

/// The number of connections that a pool may hold at a time. A caller that
/// finds them all in use waits for one.
pub const MAX_CONNECTIONS: u32 = 5;

/// The column that holds the variables: a structured value.
#[derive(Debug, Clone, PartialEq, Eq)]
pub enum JsonColumn {
    /// No value.
    Null,
    /// A list of texts, in order.
    Strings(Vec<String>),
    /// Any other value: the column is malformed.
    Other,
}

/// What the variables column holds, as mathematical values.
pub enum JsonColumnView {
    Null,
    Strings(Seq<Seq<char>>),
    Other,
}

impl View for JsonColumn {
    type V = JsonColumnView;

    open spec fn view(&self) -> JsonColumnView {
        match self {
            JsonColumn::Null => JsonColumnView::Null,
            JsonColumn::Strings(texts) => JsonColumnView::Strings(texts.deep_view()),
            JsonColumn::Other => JsonColumnView::Other,
        }
    }
}

/// A row of the table. Every column but the key may be null.
#[derive(Debug, Clone, PartialEq, Eq)]
pub struct PromptRow {
    pub id: String,
    pub name: Option<String>,
    pub content: Option<String>,
    pub category: Option<String>,
    pub variables: JsonColumn,
    pub description: Option<String>,
}

/// What a row holds, as mathematical values.
pub struct PromptRowView {
    pub id: Seq<char>,
    pub name: Option<Seq<char>>,
    pub content: Option<Seq<char>>,
    pub category: Option<Seq<char>>,
    pub variables: JsonColumnView,
    pub description: Option<Seq<char>>,
}

impl View for PromptRow {
    type V = PromptRowView;

    open spec fn view(&self) -> PromptRowView {
        PromptRowView {
            id: self.id@,
            name: self.name.deep_view(),
            content: self.content.deep_view(),
            category: self.category.deep_view(),
            variables: self.variables@,
            description: self.description.deep_view(),
        }
    }
}

impl DeepView for PromptRow {
    type V = PromptRowView;

    open spec fn deep_view(&self) -> PromptRowView {
        self@
    }
}

/// The row that holds a prompt: the key is the identifier's canonical
/// text, and the variables keep their order.
pub open spec fn row_of(prompt: PromptView) -> PromptRowView {
    PromptRowView {
        id: canonical_text(prompt.id.bits),
        name: Some(prompt.name),
        content: Some(prompt.content),
        category: prompt.category,
        variables: match prompt.variables {
            Some(names) => JsonColumnView::Strings(names),
            None => JsonColumnView::Null,
        },
        description: prompt.description,
    }
}

/// The variables that a column without defect holds: the list of texts in
/// its order, and none where the column is null.
pub open spec fn variables_of(column: JsonColumnView) -> Option<Seq<Seq<char>>> {
    match column {
        JsonColumnView::Strings(names) => Some(names),
        _ => None,
    }
}

/// What is wrong with a row, if anything: its key is not the canonical
/// text of an identifier, or it has no name, or no content, or its
/// variables are neither null nor a list of texts.
pub open spec fn row_defect(row: PromptRowView) -> Option<Seq<char>> {
    if canonical_id(row.id) is None {
        Some("the key of the row is not an identifier"@)
    } else if row.name is None {
        Some("the row has no name"@)
    } else if row.content is None {
        Some("the row has no content"@)
    } else if row.variables is Other {
        Some("the variables of the row are not a list of texts"@)
    } else {
        None
    }
}

/// The prompt that a row without defect holds.
pub open spec fn prompt_of(row: PromptRowView) -> PromptView {
    PromptView {
        id: canonical_id(row.id)->0,
        name: row.name->0,
        content: row.content->0,
        category: row.category,
        variables: variables_of(row.variables),
        description: row.description,
    }
}

/// What the reading of a row gives: the prompt, or a validation error that
/// names the defect.
pub open spec fn row_read(operation: Operation, row: PromptRowView) -> Result<
    PromptView,
    StorageErrorView,
> {
    match row_defect(row) {
        Some(defect) => Err(
            StorageErrorView::plain(ErrorKind::Validation, operation, canonical_id(row.id), defect),
        ),
        None => Ok(prompt_of(row)),
    }
}

/// The row of a prompt is read back as that prompt, with its variables in
/// their order.
pub proof fn law_row_round_trip(operation: Operation, prompt: PromptView)
    ensures
        row_read(operation, row_of(prompt)) == Ok::<PromptView, StorageErrorView>(prompt),
{
    lemma_canonical_id_of_text(prompt.id);
}

/// The view of the result of the reading of a row.
pub open spec fn read_view(result: Result<Prompt, StorageError>) -> Result<
    PromptView,
    StorageErrorView,
> {
    match result {
        Ok(prompt) => Ok(prompt@),
        Err(error) => Err(error@),
    }
}

/// The row that holds a prompt.
pub fn to_row(prompt: &Prompt) -> (row: PromptRow)
    ensures
        row@ == row_of(prompt@),
{
    PromptRow {
        id: prompt.id.to_text(),
        name: Some(copy_text(&prompt.name)),
        content: Some(copy_text(&prompt.content)),
        category: copy_optional_text(&prompt.category),
        variables: match &prompt.variables {
            Some(names) => JsonColumn::Strings(copy_texts(names)),
            None => JsonColumn::Null,
        },
        description: copy_optional_text(&prompt.description),
    }
}

/// Reads a row: the prompt that it holds, or a validation error that names
/// the row's defect. `operation` is the operation that reads the row.
pub fn from_row(operation: Operation, row: &PromptRow) -> (result: Result<Prompt, StorageError>)
    ensures
        read_view(result) == row_read(operation, row@),
{
    let id = match PromptId::from_canonical(row.id.as_str()) {
        Some(id) => id,
        None => {
            return Err(
                StorageError::new(
                    ErrorKind::Validation,
                    operation,
                    None,
                    "the key of the row is not an identifier".to_owned(),
                ),
            );
        },
    };
    let name = match &row.name {
        Some(name) => copy_text(name),
        None => {
            return Err(
                StorageError::new(
                    ErrorKind::Validation,
                    operation,
                    Some(id),
                    "the row has no name".to_owned(),
                ),
            );
        },
    };
    let content = match &row.content {
        Some(content) => copy_text(content),
        None => {
            return Err(
                StorageError::new(
                    ErrorKind::Validation,
                    operation,
                    Some(id),
                    "the row has no content".to_owned(),
                ),
            );
        },
    };
    let variables = match &row.variables {
        JsonColumn::Strings(names) => Some(copy_texts(names)),
        JsonColumn::Null => None,
        JsonColumn::Other => {
            return Err(
                StorageError::new(
                    ErrorKind::Validation,
                    operation,
                    Some(id),
                    "the variables of the row are not a list of texts".to_owned(),
                ),
            );
        },
    };
    Ok(
        Prompt {
            id,
            name,
            content,
            category: copy_optional_text(&row.category),
            variables,
            description: copy_optional_text(&row.description),
        },
    )
}

/// A parameter of a statement.
#[derive(Debug, Clone, PartialEq, Eq)]
pub enum SqlValue {
    /// A text, or null.
    Text(Option<String>),
    /// A structured value.
    Json(JsonColumn),
}

/// What a parameter holds, as mathematical values.
pub enum SqlValueView {
    Text(Option<Seq<char>>),
    Json(JsonColumnView),
}

impl View for SqlValue {
    type V = SqlValueView;

    open spec fn view(&self) -> SqlValueView {
        match self {
            SqlValue::Text(text) => SqlValueView::Text(text.deep_view()),
            SqlValue::Json(column) => SqlValueView::Json(column@),
        }
    }
}

impl DeepView for SqlValue {
    type V = SqlValueView;

    open spec fn deep_view(&self) -> SqlValueView {
        self@
    }
}

/// One statement for the database. Each is executed as a whole or not at
/// all.
#[derive(Debug, Clone, PartialEq, Eq)]
pub enum DbRequest {
    /// Create the table unless it exists.
    CreateTable,
    /// Select every row.
    SelectAll,
    /// Select the row with the given key.
    SelectById { id: String },
    /// Insert the row, or replace every column of the row that has its key.
    Upsert { row: PromptRow },
    /// Delete the row with the given key.
    DeleteById { id: String },
}

/// What a statement holds, as mathematical values.
pub enum DbRequestView {
    CreateTable,
    SelectAll,
    SelectById { id: Seq<char> },
    Upsert { row: PromptRowView },
    DeleteById { id: Seq<char> },
}

impl View for DbRequest {
    type V = DbRequestView;

    open spec fn view(&self) -> DbRequestView {
        match self {
            DbRequest::CreateTable => DbRequestView::CreateTable,
            DbRequest::SelectAll => DbRequestView::SelectAll,
            DbRequest::SelectById { id } => DbRequestView::SelectById { id: id@ },
            DbRequest::Upsert { row } => DbRequestView::Upsert { row: row@ },
            DbRequest::DeleteById { id } => DbRequestView::DeleteById { id: id@ },
        }
    }
}

/// The database's reply to a statement.
#[derive(Debug, Clone, PartialEq, Eq)]
pub enum DbReply {
    /// The rows that a selection found, in the order in which the database
    /// gave them.
    Rows { rows: Vec<PromptRow> },
    /// The number of rows that a statement changed.
    Affected { count: u64 },
    /// The statement failed, or the database could not be reached.
    Failed { detail: String },
}

/// What a reply holds, as mathematical values.
pub enum DbReplyView {
    Rows { rows: Seq<PromptRowView> },
    Affected { count: u64 },
    Failed { detail: Seq<char> },
}

impl View for DbReply {
    type V = DbReplyView;

    open spec fn view(&self) -> DbReplyView {
        match self {
            DbReply::Rows { rows } => DbReplyView::Rows { rows: rows.deep_view() },
            DbReply::Affected { count } => DbReplyView::Affected { count: *count },
            DbReply::Failed { detail } => DbReplyView::Failed { detail: detail@ },
        }
    }
}

/// The text of a statement.
pub open spec fn statement_text(request: DbRequestView) -> Seq<char> {
    match request {
        DbRequestView::CreateTable =>
            "CREATE TABLE IF NOT EXISTS prompts (id TEXT PRIMARY KEY, name TEXT, content TEXT, category TEXT, variables JSONB, description TEXT, created_at TIMESTAMPTZ NOT NULL DEFAULT NOW(), updated_at TIMESTAMPTZ NOT NULL DEFAULT NOW())"@,
        DbRequestView::SelectAll =>
            "SELECT id, name, content, category, variables, description FROM prompts"@,
        DbRequestView::SelectById { id } =>
            "SELECT id, name, content, category, variables, description FROM prompts WHERE id = $1"@,
        DbRequestView::Upsert { row } =>
            "INSERT INTO prompts (id, name, content, category, variables, description) VALUES ($1, $2, $3, $4, $5, $6) ON CONFLICT (id) DO UPDATE SET name = EXCLUDED.name, content = EXCLUDED.content, category = EXCLUDED.category, variables = EXCLUDED.variables, description = EXCLUDED.description, updated_at = NOW()"@,
        DbRequestView::DeleteById { id } => "DELETE FROM prompts WHERE id = $1"@,
    }
}

/// The parameters of a statement, in the order of their numbers.
pub open spec fn parameters_of(request: DbRequestView) -> Seq<SqlValueView> {
    match request {
        DbRequestView::CreateTable => Seq::empty(),
        DbRequestView::SelectAll => Seq::empty(),
        DbRequestView::SelectById { id } => seq![SqlValueView::Text(Some(id))],
        DbRequestView::Upsert { row } => seq![
            SqlValueView::Text(Some(row.id)),
            SqlValueView::Text(row.name),
            SqlValueView::Text(row.content),
            SqlValueView::Text(row.category),
            SqlValueView::Json(row.variables),
            SqlValueView::Text(row.description),
        ],
        DbRequestView::DeleteById { id } => seq![SqlValueView::Text(Some(id))],
    }
}

impl DbRequest {
    /// The text of the statement.
    pub fn sql(&self) -> (text: &'static str)
        ensures
            text@ == statement_text(self@),
    {
        match self {
            DbRequest::CreateTable =>
                "CREATE TABLE IF NOT EXISTS prompts (id TEXT PRIMARY KEY, name TEXT, content TEXT, category TEXT, variables JSONB, description TEXT, created_at TIMESTAMPTZ NOT NULL DEFAULT NOW(), updated_at TIMESTAMPTZ NOT NULL DEFAULT NOW())",
            DbRequest::SelectAll =>
                "SELECT id, name, content, category, variables, description FROM prompts",
            DbRequest::SelectById { id } =>
                "SELECT id, name, content, category, variables, description FROM prompts WHERE id = $1",
            DbRequest::Upsert { row } =>
                "INSERT INTO prompts (id, name, content, category, variables, description) VALUES ($1, $2, $3, $4, $5, $6) ON CONFLICT (id) DO UPDATE SET name = EXCLUDED.name, content = EXCLUDED.content, category = EXCLUDED.category, variables = EXCLUDED.variables, description = EXCLUDED.description, updated_at = NOW()",
            DbRequest::DeleteById { id } => "DELETE FROM prompts WHERE id = $1",
        }
    }

    /// The parameters of the statement, in the order of their numbers.
    pub fn parameters(&self) -> (values: Vec<SqlValue>)
        ensures
            values.deep_view() == parameters_of(self@),
    {
        let mut values: Vec<SqlValue> = Vec::new();
        match self {
            DbRequest::CreateTable => {},
            DbRequest::SelectAll => {},
            DbRequest::SelectById { id } => {
                values.push(SqlValue::Text(Some(copy_text(id))));
            },
            DbRequest::Upsert { row } => {
                values.push(SqlValue::Text(Some(copy_text(&row.id))));
                values.push(SqlValue::Text(copy_optional_text(&row.name)));
                values.push(SqlValue::Text(copy_optional_text(&row.content)));
                values.push(SqlValue::Text(copy_optional_text(&row.category)));
                values.push(
                    SqlValue::Json(
                        match &row.variables {
                            JsonColumn::Null => JsonColumn::Null,
                            JsonColumn::Strings(names) => JsonColumn::Strings(copy_texts(names)),
                            JsonColumn::Other => JsonColumn::Other,
                        },
                    ),
                );
                values.push(SqlValue::Text(copy_optional_text(&row.description)));
            },
            DbRequest::DeleteById { id } => {
                values.push(SqlValue::Text(Some(copy_text(id))));
            },
        }
        assert(values.deep_view() =~= parameters_of(self@));
        values
    }
}

/// The text that stands for a reply that does not answer the statement.
pub open spec fn unexpected_db_reply() -> Seq<char> {
    "unexpected reply from the database"@
}

/// The error that an operation reports when its statement failed or when
/// the reply does not answer it.
pub open spec fn db_failure_of(
    operation: Operation,
    id: Option<PromptId>,
    reply: DbReplyView,
) -> StorageErrorView {
    match reply {
        DbReplyView::Failed { detail } => StorageErrorView::plain(
            ErrorKind::Io,
            operation,
            id,
            detail,
        ),
        _ => StorageErrorView::plain(ErrorKind::Io, operation, id, unexpected_db_reply()),
    }
}

/// The error that an operation reports when its statement failed or when
/// the reply does not answer it.
pub fn db_failure(operation: Operation, id: Option<PromptId>, reply: DbReply) -> (error:
    StorageError)
    ensures
        error@ == db_failure_of(operation, id, reply@),
{
    match reply {
        DbReply::Failed { detail } => StorageError::new(ErrorKind::Io, operation, id, detail),
        _ => StorageError::new(
            ErrorKind::Io,
            operation,
            id,
            "unexpected reply from the database".to_owned(),
        ),
    }
}

/// What the reading of rows gives: the prompts of the rows in their order,
/// or the validation error of the first row with a defect.
pub open spec fn rows_read(operation: Operation, rows: Seq<PromptRowView>) -> Result<
    Seq<PromptView>,
    StorageErrorView,
>
    decreases rows.len(),
{
    if rows.len() == 0 {
        Ok(Seq::empty())
    } else {
        match rows_read(operation, rows.drop_last()) {
            Ok(prompts) => match row_read(operation, rows.last()) {
                Ok(prompt) => Ok(prompts.push(prompt)),
                Err(error) => Err(error),
            },
            Err(error) => Err(error),
        }
    }
}

/// What the preparation of the store returns for the database's reply.
pub open spec fn init_outcome(reply: DbReplyView) -> Result<(), StorageErrorView> {
    match reply {
        DbReplyView::Affected { count } => Ok(()),
        _ => Err(db_failure_of(Operation::Init, None, reply)),
    }
}

/// What a listing returns for the database's reply.
pub open spec fn list_outcome(reply: DbReplyView) -> Result<Seq<PromptView>, StorageErrorView> {
    match reply {
        DbReplyView::Rows { rows } => rows_read(Operation::List, rows),
        _ => Err(db_failure_of(Operation::List, None, reply)),
    }
}

/// What a retrieval returns for the database's reply: nothing where no
/// row was found, and else the prompt of the first row.
pub open spec fn get_outcome(id: PromptId, reply: DbReplyView) -> Result<
    Option<PromptView>,
    StorageErrorView,
> {
    match reply {
        DbReplyView::Rows { rows } => if rows.len() == 0 {
            Ok(None)
        } else {
            match row_read(Operation::Get, rows[0]) {
                Ok(prompt) => Ok(Some(prompt)),
                Err(error) => Err(error),
            }
        },
        _ => Err(db_failure_of(Operation::Get, Some(id), reply)),
    }
}

/// What a save returns for the database's reply.
pub open spec fn save_outcome(id: PromptId, reply: DbReplyView) -> Result<(), StorageErrorView> {
    match reply {
        DbReplyView::Affected { count } => Ok(()),
        _ => Err(db_failure_of(Operation::Save, Some(id), reply)),
    }
}

/// What a removal returns for the database's reply: whether the statement
/// deleted a row.
pub open spec fn delete_outcome(id: PromptId, reply: DbReplyView) -> Result<bool, StorageErrorView> {
    match reply {
        DbReplyView::Affected { count } => Ok(count > 0),
        _ => Err(db_failure_of(Operation::Delete, Some(id), reply)),
    }
}

/// Reads rows: the prompts of the rows in their order, or the validation
/// error of the first row with a defect.
pub fn read_rows(operation: Operation, rows: &Vec<PromptRow>) -> (result: Result<
    Vec<Prompt>,
    StorageError,
>)
    ensures
        crate::storage::listed_view(result) == rows_read(operation, rows.deep_view()),
{
    let mut prompts: Vec<Prompt> = Vec::new();
    let mut index: usize = 0;
    assert(rows.deep_view().take(0) =~= Seq::empty());
    assert(prompts.deep_view() =~= Seq::empty());
    while index < rows.len()
        invariant
            index <= rows.len(),
            rows_read(operation, rows.deep_view().take(index as int)) == Ok::<
                Seq<PromptView>,
                StorageErrorView,
            >(prompts.deep_view()),
        decreases rows.len() - index,
    {
        let ghost next = rows.deep_view().take(index + 1);
        proof {
            assert(next.drop_last() =~= rows.deep_view().take(index as int));
            assert(next.last() == rows[index as int]@);
            lemma_rows_read_fails(operation, rows.deep_view(), index + 1);
        }
        match from_row(operation, &rows[index]) {
            Ok(prompt) => {
                let ghost before = prompts.deep_view();
                prompts.push(prompt);
                assert(prompts.deep_view() =~= before.push(prompt@));
            },
            Err(error) => {
                assert(row_read(operation, next.last()) == Err::<PromptView, StorageErrorView>(
                    error@,
                ));
                return Err(error);
            },
        }
        index += 1;
    }
    assert(rows.deep_view().take(index as int) =~= rows.deep_view());
    Ok(prompts)
}

/// The failure to connect to the database at the given address, with what
/// the database's driver reported.
pub open spec fn connect_failure(database_url: Seq<char>, detail: Seq<char>) -> StorageErrorView {
    StorageErrorView::plain(ErrorKind::Io, Operation::Init, None, detail).annotated(
        "Failed to create PostgreSQL connection pool for URL: "@ + database_url,
    )
}

/// Whether a result is the relational store over the given address, with
/// the fixed bound on its pool of connections.
pub open spec fn is_store_over(
    result: Result<PostgresStorage, StorageError>,
    database_url: Seq<char>,
) -> bool {
    result matches Ok(storage) && storage.database_url@ == database_url && storage.max_connections
        == MAX_CONNECTIONS
}

/// Whether a result is the given failure.
pub open spec fn is_failure(
    result: Result<PostgresStorage, StorageError>,
    failure: StorageErrorView,
) -> bool {
    result matches Err(error) && error@ == failure
}

impl PostgresStorage {
    /// The relational store after the attempt to open its pool of
    /// connections: the store over the given address with the fixed bound
    /// on its pool where the attempt succeeded, and else an input or output
    /// failure of the preparation that names the pool and the address.
    pub fn connected(database_url: &str, outcome: Result<(), String>) -> (result: Result<
        PostgresStorage,
        StorageError,
    >)
        ensures
            outcome is Ok ==> is_store_over(result, database_url@),
            outcome matches Err(detail) ==> is_failure(
                result,
                connect_failure(database_url@, detail@),
            ),
    {
        match outcome {
            Ok(_) => Ok(PostgresStorage::new(database_url)),
            Err(detail) => Err(
                StorageError::new(ErrorKind::Io, Operation::Init, None, detail).with_context(
                    concat_text("Failed to create PostgreSQL connection pool for URL: ", database_url),
                ),
            ),
        }
    }

    /// A relational store over the database at the given address, with the
    /// fixed bound on its pool of connections.
    pub fn new(database_url: &str) -> (storage: PostgresStorage)
        ensures
            storage.database_url@ == database_url@,
            storage.max_connections == MAX_CONNECTIONS,
    {
        PostgresStorage { database_url: database_url.to_owned(), max_connections: MAX_CONNECTIONS }
    }

    /// The statement that prepares the store. It changes no row, and may be
    /// executed at every start.
    pub fn init_schema(&self) -> (request: DbRequest)
        ensures
            request@ == DbRequestView::CreateTable,
    {
        DbRequest::CreateTable
    }

    /// What the preparation of the store returns for the database's reply.
    pub fn init_schema_result(&self, reply: DbReply) -> (result: Result<(), StorageError>)
        ensures
            crate::storage::plain_view(result) == init_outcome(reply@),
    {
        match reply {
            DbReply::Affected { count } => Ok(()),
            other => Err(db_failure(Operation::Init, None, other)),
        }
    }

    /// The statement of a listing.
    pub fn list_prompts(&self) -> (request: DbRequest)
        ensures
            request@ == DbRequestView::SelectAll,
    {
        DbRequest::SelectAll
    }

    /// What a listing returns for the database's reply.
    pub fn list_prompts_result(&self, reply: DbReply) -> (result: Result<Vec<Prompt>, StorageError>)
        ensures
            crate::storage::listed_view(result) == list_outcome(reply@),
    {
        match reply {
            DbReply::Rows { rows } => read_rows(Operation::List, &rows),
            other => Err(db_failure(Operation::List, None, other)),
        }
    }

    /// The statement of the retrieval of the prompt with the given
    /// identifier.
    pub fn get_prompt(&self, id: &PromptId) -> (request: DbRequest)
        ensures
            request@ == (DbRequestView::SelectById { id: canonical_text(id.bits) }),
    {
        DbRequest::SelectById { id: id.to_text() }
    }

    /// What a retrieval returns for the database's reply.
    pub fn get_prompt_result(&self, id: &PromptId, reply: DbReply) -> (result: Result<
        Option<Prompt>,
        StorageError,
    >)
        ensures
            crate::storage::found_view(result) == get_outcome(*id, reply@),
    {
        match reply {
            DbReply::Rows { rows } => {
                if rows.len() == 0 {
                    Ok(None)
                } else {
                    match from_row(Operation::Get, &rows[0]) {
                        Ok(prompt) => Ok(Some(prompt)),
                        Err(error) => Err(error),
                    }
                }
            },
            other => Err(db_failure(Operation::Get, Some(*id), other)),
        }
    }

    /// The statement of the save of a prompt: one statement that inserts
    /// the row or replaces it whole.
    pub fn save_prompt(&self, prompt: &Prompt) -> (request: DbRequest)
        ensures
            request@ == (DbRequestView::Upsert { row: row_of(prompt@) }),
    {
        DbRequest::Upsert { row: to_row(prompt) }
    }

    /// What a save returns for the database's reply.
    pub fn save_prompt_result(&self, id: &PromptId, reply: DbReply) -> (result: Result<
        (),
        StorageError,
    >)
        ensures
            crate::storage::plain_view(result) == save_outcome(*id, reply@),
    {
        match reply {
            DbReply::Affected { count } => Ok(()),
            other => Err(db_failure(Operation::Save, Some(*id), other)),
        }
    }

    /// The statement of the removal of the prompt with the given
    /// identifier.
    pub fn delete_prompt(&self, id: &PromptId) -> (request: DbRequest)
        ensures
            request@ == (DbRequestView::DeleteById { id: canonical_text(id.bits) }),
    {
        DbRequest::DeleteById { id: id.to_text() }
    }

    /// What a removal returns for the database's reply.
    pub fn delete_prompt_result(&self, id: &PromptId, reply: DbReply) -> (result: Result<
        bool,
        StorageError,
    >)
        ensures
            crate::storage::plain_view(result) == delete_outcome(*id, reply@),
    {
        match reply {
            DbReply::Affected { count } => Ok(count > 0),
            other => Err(db_failure(Operation::Delete, Some(*id), other)),
        }
    }
}

/// Where the reading of the first rows fails, the reading of all rows
/// fails in the same way.
pub proof fn lemma_rows_read_fails(operation: Operation, rows: Seq<PromptRowView>, count: int)
    requires
        0 <= count <= rows.len(),
    ensures
        rows_read(operation, rows.take(count)) matches Err(error) ==> rows_read(operation, rows)
            == Err::<Seq<PromptView>, StorageErrorView>(error),
    decreases rows.len() - count,
{
    if count < rows.len() {
        assert(rows.take(count + 1).drop_last() =~= rows.take(count));
        lemma_rows_read_fails(operation, rows, count + 1);
    } else {
        assert(rows.take(count) =~= rows);
    }
}

} // verus!
