//! The two backends and the uniform contract that both meet.
//!
//! A backend here is the description of one connection: where it leads and
//! which engine answers. It plans each operation as a statement with bound
//! values, and turns the raw rows that the engine gave into the uniform
//! result. Issuing the statement is left to the holder of the connection.

use vstd::prelude::*;
use vstd::string::*;
use crate::credentials::{resolve_credentials, resolved};
use crate::error::{ErrorView, InspectorError};
use crate::models::db_types::{
    credentials_of, details_of, rows_text, ColumnDetail, ColumnDetailView, CredentialsView,
    DbCredentials, TableData, TableView,
};
use crate::query::{
    bound_values, changes_text, count_select, count_statement, delete_plan, delete_statement,
    distinct_columns, filter_has_limit, has_own_limit, is_update_plan, lemma_change_is_bound_as_written,
    page_select, page_select_text, probe_limit, tables_select, tables_statement, unbound,
    unbound_statement, update_plan, update_statement, Engine, Statement, StatementView,
};
use crate::text::{
    options_text, parse_u16, same_text, slice_text, text_of, texts_of, u16_number, NumberError,
};
use crate::value::{
    lemma_written_value_reads_back, mysql_written, sqlite_written, Cell, MySqlCell,
    MySqlCellView, SqliteCell, SqliteCellView,
};

verus! {

/// Where a client/server connection leads.
#[derive(Debug, Clone)]
pub struct MySqlBackend {
    pub host: String,
    pub port: u16,
    pub database: String,
    pub username: String,
    pub password: String,
}

/// Where an embedded connection leads: the database file `database`, a path
/// below `root`.
#[derive(Debug, Clone)]
pub struct SqliteBackend {
    pub root: String,
    pub database: String,
}

/// A backend of either engine.
#[derive(Debug, Clone)]
pub enum DbBackend {
    MySql(MySqlBackend),
    Sqlite(SqliteBackend),
}

/// The mathematical value of a [`DbBackend`].
pub ghost enum BackendView {
    MySql {
        host: Seq<char>,
        port: u16,
        database: Seq<char>,
        username: Seq<char>,
        password: Seq<char>,
    },
    Sqlite { root: Seq<char>, database: Seq<char> },
}

impl View for MySqlBackend {
    type V = BackendView;

    open spec fn view(&self) -> BackendView {
        BackendView::MySql {
            host: self.host@,
            port: self.port,
            database: self.database@,
            username: self.username@,
            password: self.password@,
        }
    }
}

impl View for SqliteBackend {
    type V = BackendView;

    open spec fn view(&self) -> BackendView {
        BackendView::Sqlite { root: self.root@, database: self.database@ }
    }
}

impl View for DbBackend {
    type V = BackendView;

    open spec fn view(&self) -> BackendView {
        match self {
            DbBackend::MySql(m) => m@,
            DbBackend::Sqlite(s) => s@,
        }
    }
}

impl BackendView {
    /// The engine behind the backend.
    pub open spec fn engine(self) -> Engine {
        match self {
            BackendView::MySql { .. } => Engine::ClientServer,
            BackendView::Sqlite { .. } => Engine::Embedded,
        }
    }
}

/// The text of an optional part of the credentials, empty where it is missing.
pub open spec fn or_empty(o: Option<Seq<char>>) -> Seq<char> {
    match o {
        Some(s) => s,
        None => Seq::<char>::empty(),
    }
}

/// The port that credentials name: 3306 where they name none.
pub open spec fn credentials_port(port: Option<Seq<char>>) -> Result<u16, NumberError> {
    match port {
        Some(p) => u16_number(p),
        None => Ok(3306u16),
    }
}

/// The client/server backend that credentials describe. Missing host, user
/// name and password are empty, and a missing port is 3306; a port that is no
/// number below 65536 is an error that says why it is none.
pub open spec fn mysql_backend_for(creds: CredentialsView) -> Result<BackendView, ErrorView> {
    match credentials_port(creds.port) {
        Ok(port) => Ok(
            BackendView::MySql {
                host: or_empty(creds.host),
                port,
                database: creds.database,
                username: or_empty(creds.username),
                password: or_empty(creds.password),
            },
        ),
        Err(reason) => Err(ErrorView::InvalidPort(reason)),
    }
}

/// The backend that credentials describe for a project rooted at
/// `project_path`: `"mysql"` selects the client/server engine and `"sqlite"`
/// the embedded one, whose database file lies below the project root. Any
/// other connection is an error that names the connection.
pub open spec fn backend_for(creds: CredentialsView, project_path: Seq<char>) -> Result<
    BackendView,
    ErrorView,
> {
    if creds.connection == "mysql"@ {
        mysql_backend_for(creds)
    } else if creds.connection == "sqlite"@ {
        Ok(BackendView::Sqlite { root: project_path, database: creds.database })
    } else {
        Err(ErrorView::UnsupportedConnection(creds.connection))
    }
}

/// The backend of a project with the given configuration sources: the
/// backend for the credentials that the sources resolve to.
pub open spec fn backend_of_sources(
    env: Option<Seq<char>>,
    stored: Option<CredentialsView>,
    settings: Option<Seq<char>>,
    project_path: Seq<char>,
) -> Result<BackendView, ErrorView> {
    match resolved(env, stored, settings) {
        Some(creds) => backend_for(creds, project_path),
        None => Err(ErrorView::CredentialsNotFound),
    }
}

/// `r` is the backend or the error that `expected` says.
pub open spec fn is_backend(
    r: Result<DbBackend, InspectorError>,
    expected: Result<BackendView, ErrorView>,
) -> bool {
    match r {
        Ok(b) => expected == Ok::<BackendView, ErrorView>(b@),
        Err(e) => expected == Err::<BackendView, ErrorView>(e@),
    }
}

/// Copies an optional part of the credentials, empty where it is missing.
fn text_or_empty(o: &Option<String>) -> (r: String)
    ensures
        r@ == or_empty(text_of(*o)),
{
    match o {
        Some(s) => s.clone(),
        None => String::new(),
    }
}

impl MySqlBackend {
    /// Describes the connection that `creds` name.
    ///
    /// Fails with `InvalidPort` exactly when the credentials hold a port that
    /// is no number below 65536, and says why it is none. Missing host, user
    /// name and password are empty, and a missing port is 3306.
    pub fn new(creds: &DbCredentials) -> (r: Result<MySqlBackend, InspectorError>)
        ensures
            match r {
                Ok(b) => mysql_backend_for(creds@) == Ok::<BackendView, ErrorView>(b@),
                Err(e) => mysql_backend_for(creds@) == Err::<BackendView, ErrorView>(e@),
            },
    {
        let port = match &creds.port {
            Some(p) => parse_u16(p.as_str()),
            None => Ok(3306u16),
        };
        match port {
            Ok(port) => Ok(
                MySqlBackend {
                    host: text_or_empty(&creds.host),
                    port,
                    database: creds.database.clone(),
                    username: text_or_empty(&creds.username),
                    password: text_or_empty(&creds.password),
                },
            ),
            Err(reason) => Err(InspectorError::InvalidPort(reason)),
        }
    }
}

impl SqliteBackend {
    /// Describes the connection to the database file `database` below `root`.
    pub fn new(root: &str, database: &str) -> (r: SqliteBackend)
        ensures
            r@ == (BackendView::Sqlite { root: root@, database: database@ }),
    {
        SqliteBackend { root: String::from_str(root), database: String::from_str(database) }
    }
}

/// Describes the backend for `creds`, for a project rooted at `project_path`.
///
/// Fails with `UnsupportedConnection`, which names the connection, exactly
/// when the connection is neither `"mysql"` nor `"sqlite"`, and with
/// `InvalidPort` as `MySqlBackend::new` does.
pub fn get_db_backend(creds: &DbCredentials, project_path: &str) -> (r: Result<
    DbBackend,
    InspectorError,
>)
    ensures
        is_backend(r, backend_for(creds@, project_path@)),
{
    if same_text(creds.connection.as_str(), "mysql") {
        match MySqlBackend::new(creds) {
            Ok(b) => Ok(DbBackend::MySql(b)),
            Err(e) => Err(e),
        }
    } else if same_text(creds.connection.as_str(), "sqlite") {
        Ok(DbBackend::Sqlite(SqliteBackend::new(project_path, creds.database.as_str())))
    } else {
        Err(InspectorError::UnsupportedConnection(creds.connection.clone()))
    }
}

/// Describes the backend of a project from its configuration sources: the
/// credentials that the sources resolve to, and the backend for them.
///
/// Fails with `CredentialsNotFound` exactly when no source yields
/// credentials, and else as `get_db_backend` does.
pub fn connect_database(
    env: Option<&str>,
    stored: Option<DbCredentials>,
    settings: Option<&str>,
    project_path: &str,
) -> (r: Result<DbBackend, InspectorError>)
    ensures
        is_backend(
            r,
            backend_of_sources(
                slice_text(env),
                credentials_of(stored),
                slice_text(settings),
                project_path@,
            ),
        ),
{
    match resolve_credentials(env, stored, settings) {
        Ok(creds) => get_db_backend(&creds, project_path),
        Err(e) => Err(e),
    }
}

/// The statement that selects a page, and whether it asks for one row more
/// than the page holds.
#[derive(Debug, Clone)]
pub struct PagePlan {
    pub statement: Statement,
    pub probes_next: bool,
}

/// The mathematical value of a [`PagePlan`].
pub ghost struct PagePlanView {
    pub statement: StatementView,
    pub probes_next: bool,
}

impl View for PagePlan {
    type V = PagePlanView;

    open spec fn view(&self) -> PagePlanView {
        PagePlanView { statement: self.statement@, probes_next: self.probes_next }
    }
}

/// The plan for page `page` of `table`, pages counted from 1.
///
/// A filter that holds `LIMIT` in its upper-cased form bounds its own rows:
/// the statement then ends with the filter, and the plan does not probe for a
/// further page. Otherwise the statement sorts by the given column, asks for
/// one row more than the page holds, and skips the rows of the pages before.
/// Nothing is bound.
pub open spec fn page_plan(
    engine: Engine,
    table: Seq<char>,
    page: nat,
    per_page: nat,
    filter: Option<Seq<char>>,
    sort_column: Option<Seq<char>>,
    sort_direction: Option<Seq<char>>,
) -> PagePlanView {
    PagePlanView {
        statement: unbound(
            page_select(
                engine,
                table,
                page,
                per_page,
                filter,
                has_own_limit(filter),
                sort_column,
                sort_direction,
            ),
        ),
        probes_next: !has_own_limit(filter),
    }
}

impl DbBackend {
    /// The engine behind the backend.
    pub fn engine(&self) -> (r: Engine)
        ensures
            r == self@.engine(),
    {
        match self {
            DbBackend::MySql(_) => Engine::ClientServer,
            DbBackend::Sqlite(_) => Engine::Embedded,
        }
    }

    /// Plans the listing of the user tables.
    pub fn get_tables(&self) -> (r: Statement)
        ensures
            r@ == unbound(tables_select(self@.engine())),
    {
        tables_statement(self.engine())
    }

    /// Plans the selection of page `page` of `table`, pages counted from 1.
    pub fn get_table_data(
        &self,
        table_name: &str,
        page: u32,
        per_page: u32,
        where_clause: Option<&str>,
        sort_column: Option<&str>,
        sort_direction: Option<&str>,
    ) -> (r: PagePlan)
        requires
            page >= 1,
        ensures
            r@ == page_plan(
                self@.engine(),
                table_name@,
                page as nat,
                per_page as nat,
                slice_text(where_clause),
                slice_text(sort_column),
                slice_text(sort_direction),
            ),
    {
        let own_limit = filter_has_limit(where_clause);
        let sql = page_select_text(
            self.engine(),
            table_name,
            page,
            per_page,
            where_clause,
            own_limit,
            sort_column,
            sort_direction,
        );
        PagePlan { statement: unbound_statement(sql), probes_next: !own_limit }
    }

    /// Plans the count of the rows of `table` under `where_clause`.
    pub fn get_total_rows(&self, table_name: &str, where_clause: Option<&str>) -> (r: Statement)
        ensures
            r@ == unbound(count_select(table_name@, slice_text(where_clause))),
    {
        count_statement(table_name, where_clause)
    }

    /// Plans an arbitrary statement: the text as it stands, nothing bound.
    pub fn execute_query(&self, query: &str) -> (r: Statement)
        ensures
            r@ == unbound(query@),
    {
        unbound_statement(String::from_str(query))
    }

    /// Plans the deletion of the rows whose `pk_column` holds `pk_value`.
    pub fn delete_row(&self, table_name: &str, pk_column: &str, pk_value: &str) -> (r: Result<
        Statement,
        InspectorError,
    >)
        ensures
            match r {
                Ok(st) => delete_plan(self@.engine(), table_name@, pk_column@, pk_value@) == Ok::<
                    StatementView,
                    ErrorView,
                >(st@),
                Err(e) => delete_plan(self@.engine(), table_name@, pk_column@, pk_value@) == Err::<
                    StatementView,
                    ErrorView,
                >(e@),
            },
    {
        delete_statement(self.engine(), table_name, pk_column, pk_value)
    }

    /// Plans the update of the row whose `pk_column` holds `pk_value`, for
    /// changes that are a mapping. `None` stands for an update that changes
    /// nothing and affects no row.
    pub fn update_row(
        &self,
        table_name: &str,
        pk_column: &str,
        pk_value: &str,
        data: &Vec<(String, Option<String>)>,
    ) -> (r: Result<Option<Statement>, InspectorError>)
        requires
            distinct_columns(changes_text(data@)),
        ensures
            is_update_plan(
                r,
                update_plan(
                    self@.engine(),
                    table_name@,
                    pk_column@,
                    pk_value@,
                    changes_text(data@),
                ),
            ),
    {
        update_statement(self.engine(), table_name, pk_column, pk_value, data)
    }
}

/// A column as the client/server engine describes it.
#[derive(Debug, Clone)]
pub struct RawColumn {
    pub name: String,
    pub data_type: String,
    pub not_null: bool,
}

/// The mathematical value of a [`RawColumn`].
pub ghost struct RawColumnView {
    pub name: Seq<char>,
    pub data_type: Seq<char>,
    pub not_null: bool,
}

impl View for RawColumn {
    type V = RawColumnView;

    open spec fn view(&self) -> RawColumnView {
        RawColumnView { name: self.name@, data_type: self.data_type@, not_null: self.not_null }
    }
}

/// What the client/server engine answered: the columns, and for each row one
/// cell per column.
#[derive(Debug, Clone)]
pub struct MySqlRows {
    pub columns: Vec<RawColumn>,
    pub rows: Vec<Vec<MySqlCell>>,
}

/// The mathematical value of a [`MySqlRows`].
pub ghost struct MySqlRowsView {
    pub columns: Seq<RawColumnView>,
    pub rows: Seq<Seq<MySqlCellView>>,
}

/// The values of the cells of a row.
pub open spec fn mysql_cells(row: Seq<MySqlCell>) -> Seq<MySqlCellView> {
    Seq::new(row.len(), |c: int| row[c]@)
}

impl View for MySqlRows {
    type V = MySqlRowsView;

    open spec fn view(&self) -> MySqlRowsView {
        MySqlRowsView {
            columns: Seq::new(self.columns@.len(), |c: int| self.columns@[c]@),
            rows: Seq::new(self.rows@.len(), |i: int| mysql_cells(self.rows@[i]@)),
        }
    }
}

/// What the embedded engine answered: the names of the columns, and for each
/// row one cell per column.
#[derive(Debug, Clone)]
pub struct SqliteRows {
    pub columns: Vec<String>,
    pub rows: Vec<Vec<SqliteCell>>,
}

/// The mathematical value of a [`SqliteRows`].
pub ghost struct SqliteRowsView {
    pub columns: Seq<Seq<char>>,
    pub rows: Seq<Seq<SqliteCellView>>,
}

/// The values of the cells of a row.
pub open spec fn sqlite_cells(row: Seq<SqliteCell>) -> Seq<SqliteCellView> {
    Seq::new(row.len(), |c: int| row[c]@)
}

impl View for SqliteRows {
    type V = SqliteRowsView;

    open spec fn view(&self) -> SqliteRowsView {
        SqliteRowsView {
            columns: texts_of(self.columns@),
            rows: Seq::new(self.rows@.len(), |i: int| sqlite_cells(self.rows@[i]@)),
        }
    }
}

/// The number of rows that a page keeps of those fetched: all of them, but no
/// more than the page holds where the statement probed for a further page.
pub open spec fn kept_rows(fetched: nat, per_page: nat, probes_next: bool) -> nat {
    if probes_next && fetched > per_page {
        per_page
    } else {
        fetched
    }
}

/// Rows follow the page: the statement probed for a further page and the
/// engine handed out more rows than the page holds.
pub open spec fn more_follow(fetched: nat, per_page: nat, probes_next: bool) -> bool {
    probes_next && fetched > per_page
}

/// The smaller of two numbers.
pub open spec fn at_most(a: nat, b: nat) -> nat {
    if a <= b {
        a
    } else {
        b
    }
}

impl MySqlRowsView {
    /// Every row holds one cell per column.
    pub open spec fn wf(self) -> bool {
        forall|i: int|
            0 <= i < self.rows.len() ==> (#[trigger] self.rows[i]).len() == self.columns.len()
    }

    /// The names of the columns.
    pub open spec fn names(self) -> Seq<Seq<char>> {
        Seq::new(self.columns.len(), |c: int| self.columns[c].name)
    }

    /// The details of the columns: each nullable unless the engine says
    /// otherwise, the default unknown.
    pub open spec fn details(self) -> Seq<ColumnDetailView> {
        Seq::new(
            self.columns.len(),
            |c: int|
                ColumnDetailView {
                    name: self.columns[c].name,
                    data_type: self.columns[c].data_type,
                    is_nullable: !self.columns[c].not_null,
                    default_value: None,
                },
        )
    }

    /// The uniform text of the first `kept` rows, cell by cell.
    pub open spec fn texts(self, kept: nat) -> Seq<Seq<Option<Seq<char>>>> {
        Seq::new(
            kept,
            |i: int| Seq::new(self.rows[i].len(), |c: int| self.rows[i][c].normalized()),
        )
    }

    /// The uniform result for the answer to a page request.
    ///
    /// Where the statement probed for a further page, the result keeps no
    /// more rows than the page holds and `has_more` tells whether the engine
    /// handed out more. Otherwise every row is kept and `has_more` is false.
    pub open spec fn table(
        self,
        per_page: nat,
        probes_next: bool,
        duration_ms: Option<u64>,
    ) -> TableView {
        TableView {
            total: kept_rows(self.rows.len(), per_page, probes_next) % 0x1_0000_0000,
            has_more: more_follow(self.rows.len(), per_page, probes_next),
            columns: self.names(),
            column_details: self.details(),
            rows: self.texts(kept_rows(self.rows.len(), per_page, probes_next)),
            execution_duration_ms: duration_ms,
        }
    }
}

impl SqliteRowsView {
    /// Every row holds one cell per column.
    pub open spec fn wf(self) -> bool {
        forall|i: int|
            0 <= i < self.rows.len() ==> (#[trigger] self.rows[i]).len() == self.columns.len()
    }

    /// The details of the columns: type and default unknown, nullable.
    pub open spec fn details(self) -> Seq<ColumnDetailView> {
        Seq::new(
            self.columns.len(),
            |c: int|
                ColumnDetailView {
                    name: self.columns[c],
                    data_type: "UNKNOWN"@,
                    is_nullable: true,
                    default_value: None,
                },
        )
    }

    /// The uniform text of the first `kept` rows, cell by cell.
    pub open spec fn texts(self, kept: nat) -> Seq<Seq<Option<Seq<char>>>> {
        Seq::new(
            kept,
            |i: int| Seq::new(self.rows[i].len(), |c: int| self.rows[i][c].normalized()),
        )
    }

    /// The uniform result for the answer to a page request.
    ///
    /// Where the statement probed for a further page, the result keeps no
    /// more rows than the page holds and `has_more` tells whether the engine
    /// handed out more. Otherwise every row is kept and `has_more` is false.
    pub open spec fn table(
        self,
        per_page: nat,
        probes_next: bool,
        duration_ms: Option<u64>,
    ) -> TableView {
        TableView {
            total: kept_rows(self.rows.len(), per_page, probes_next) % 0x1_0000_0000,
            has_more: more_follow(self.rows.len(), per_page, probes_next),
            columns: self.columns,
            column_details: self.details(),
            rows: self.texts(kept_rows(self.rows.len(), per_page, probes_next)),
            execution_duration_ms: duration_ms,
        }
    }
}

/// The result for a well-formed answer is well formed.
pub proof fn lemma_mysql_table_is_well_formed(
    raw: MySqlRowsView,
    per_page: nat,
    probes_next: bool,
    duration_ms: Option<u64>,
)
    requires
        raw.wf(),
    ensures
        raw.table(per_page, probes_next, duration_ms).wf(),
{
}

/// The result for a well-formed answer is well formed.
pub proof fn lemma_sqlite_table_is_well_formed(
    raw: SqliteRowsView,
    per_page: nat,
    probes_next: bool,
    duration_ms: Option<u64>,
)
    requires
        raw.wf(),
    ensures
        raw.table(per_page, probes_next, duration_ms).wf(),
{
}

/// The number of rows as it is reported in a result.
fn row_count(len: usize) -> (r: u32)
    ensures
        r as nat == len as nat % 0x1_0000_0000,
{
    ((len as u64) % 0x1_0000_0000u64) as u32
}

/// Counts the rows that a page keeps.
fn rows_to_keep(fetched: usize, per_page: u32, probes_next: bool) -> (r: usize)
    ensures
        r as nat == kept_rows(fetched as nat, per_page as nat, probes_next),
        r <= fetched,
{
    if probes_next && fetched as u64 > per_page as u64 {
        per_page as usize
    } else {
        fetched
    }
}

/// The names of the columns that details describe.
spec fn detail_names(details: Seq<ColumnDetailView>) -> Seq<Seq<char>> {
    Seq::new(details.len(), |c: int| details[c].name)
}

/// The uniform text of the first `kept` rows of cells, cell by cell.
spec fn cell_texts<C: Cell>(rows: Seq<Vec<C>>, kept: nat) -> Seq<Seq<Option<Seq<char>>>> {
    Seq::new(kept, |i: int| Seq::new(rows[i]@.len(), |c: int| rows[i]@[c].text()))
}

/// Rows of cells are as wide as the rows of their values.
proof fn lemma_widths_agree<C, V>(rows: Seq<Vec<C>>, values: Seq<Seq<V>>, width: int)
    requires
        values.len() == rows.len(),
        forall|i: int| 0 <= i < rows.len() ==> (#[trigger] values[i]).len() == rows[i]@.len(),
    ensures
        (forall|i: int| 0 <= i < rows.len() ==> (#[trigger] rows[i])@.len() == width) == (forall|
            i: int,
        | 0 <= i < values.len() ==> (#[trigger] values[i]).len() == width),
{
    if forall|i: int| 0 <= i < rows.len() ==> (#[trigger] rows[i])@.len() == width {
        assert forall|i: int| 0 <= i < values.len() implies (#[trigger] values[i]).len()
            == width by {
            assert(rows[i]@.len() == width);
        }
    } else {
        let i = choose|i: int| 0 <= i < rows.len() && (#[trigger] rows[i])@.len() != width;
        assert(values[i].len() != width);
    }
}

/// Decides whether every row holds `width` cells.
fn rows_aligned<C>(rows: &Vec<Vec<C>>, width: usize) -> (r: bool)
    ensures
        r == forall|i: int| 0 <= i < rows@.len() ==> (#[trigger] rows@[i])@.len() == width,
{
    let mut i: usize = 0;
    while i < rows.len()
        invariant
            i <= rows.len(),
            forall|k: int| 0 <= k < i ==> (#[trigger] rows@[k])@.len() == width,
        decreases rows.len() - i,
    {
        if rows[i].len() != width {
            return false;
        }
        i += 1;
    }
    true
}

/// Writes the first `keep` rows of cells as optional texts.
fn rows_to_texts<C: Cell>(rows: &Vec<Vec<C>>, keep: usize) -> (r: Vec<Vec<Option<String>>>)
    requires
        keep <= rows@.len(),
    ensures
        rows_text(r@) == cell_texts(rows@, keep as nat),
{
    let mut out: Vec<Vec<Option<String>>> = Vec::new();
    let mut i: usize = 0;
    while i < keep
        invariant
            i <= keep <= rows@.len(),
            out@.len() == i,
            forall|k: int|
                0 <= k < i ==> options_text((#[trigger] out@[k])@) == cell_texts(
                    rows@,
                    keep as nat,
                )[k],
        decreases keep - i,
    {
        let row = &rows[i];
        let mut cells: Vec<Option<String>> = Vec::new();
        let mut c: usize = 0;
        while c < row.len()
            invariant
                c <= row.len(),
                cells@.len() == c,
                forall|k: int| 0 <= k < c ==> text_of(#[trigger] cells@[k]) == row@[k].text(),
            decreases row.len() - c,
        {
            cells.push(row[c].to_text());
            c += 1;
        }
        assert(options_text(cells@) =~= cell_texts(rows@, keep as nat)[i as int]);
        out.push(cells);
        i += 1;
    }
    assert(rows_text(out@) =~= cell_texts(rows@, keep as nat));
    out
}

/// Turns rows of cells into the uniform result under the given columns.
fn page_of<C: Cell>(
    column_details: Vec<ColumnDetail>,
    rows: &Vec<Vec<C>>,
    per_page: u32,
    probes_next: bool,
    duration_ms: Option<u64>,
) -> (r: TableData)
    ensures
        r@ == (TableView {
            total: kept_rows(rows@.len(), per_page as nat, probes_next) % 0x1_0000_0000,
            has_more: more_follow(rows@.len(), per_page as nat, probes_next),
            columns: detail_names(details_of(column_details@)),
            column_details: details_of(column_details@),
            rows: cell_texts(rows@, kept_rows(rows@.len(), per_page as nat, probes_next)),
            execution_duration_ms: duration_ms,
        }),
{
    let keep = rows_to_keep(rows.len(), per_page, probes_next);
    let texts = rows_to_texts(rows, keep);
    let mut columns: Vec<String> = Vec::new();
    let mut c: usize = 0;
    while c < column_details.len()
        invariant
            c <= column_details.len(),
            columns@.len() == c,
            forall|k: int| 0 <= k < c ==> (#[trigger] columns@[k])@ == column_details@[k].name@,
        decreases column_details.len() - c,
    {
        columns.push(column_details[c].name.clone());
        c += 1;
    }
    assert(texts_of(columns@) =~= detail_names(details_of(column_details@)));
    TableData {
        total: row_count(keep),
        has_more: keep < rows.len(),
        columns,
        column_details,
        rows: texts,
        execution_duration_ms: duration_ms,
    }
}

impl MySqlRows {
    /// Decides whether every row holds one cell per column.
    pub fn is_aligned(&self) -> (r: bool)
        ensures
            r == self@.wf(),
    {
        proof {
            lemma_widths_agree(self.rows@, self@.rows, self.columns@.len() as int);
        }
        rows_aligned(&self.rows, self.columns.len())
    }

    /// Describes the columns.
    fn details(&self) -> (r: Vec<ColumnDetail>)
        ensures
            details_of(r@) == self@.details(),
    {
        let mut details: Vec<ColumnDetail> = Vec::new();
        let mut c: usize = 0;
        while c < self.columns.len()
            invariant
                c <= self.columns.len(),
                details@.len() == c,
                forall|k: int| 0 <= k < c ==> (#[trigger] details@[k])@ == self@.details()[k],
            decreases self.columns.len() - c,
        {
            details.push(
                ColumnDetail {
                    name: self.columns[c].name.clone(),
                    data_type: self.columns[c].data_type.clone(),
                    is_nullable: !self.columns[c].not_null,
                    default_value: None,
                },
            );
            c += 1;
        }
        assert(details_of(details@) =~= self@.details());
        details
    }

    /// Turns the answer to a page request into the uniform result.
    pub fn page(&self, per_page: u32, probes_next: bool, duration_ms: Option<u64>) -> (r: TableData)
        ensures
            r@ == self@.table(per_page as nat, probes_next, duration_ms),
    {
        let data = page_of(self.details(), &self.rows, per_page, probes_next, duration_ms);
        proof {
            let kept = kept_rows(self.rows@.len(), per_page as nat, probes_next);
            assert(cell_texts(self.rows@, kept) =~~= self@.texts(kept));
            assert(detail_names(self@.details()) =~= self@.names());
        }
        data
    }

    /// Turns the answer to an arbitrary statement into the uniform result:
    /// every row is kept and nothing follows.
    pub fn result(&self, duration_ms: Option<u64>) -> (r: TableData)
        ensures
            r@ == self@.table(0, false, duration_ms),
    {
        self.page(0, false, duration_ms)
    }
}

impl SqliteRows {
    /// Decides whether every row holds one cell per column.
    pub fn is_aligned(&self) -> (r: bool)
        ensures
            r == self@.wf(),
    {
        proof {
            lemma_widths_agree(self.rows@, self@.rows, self.columns@.len() as int);
        }
        rows_aligned(&self.rows, self.columns.len())
    }

    /// Describes the columns.
    fn details(&self) -> (r: Vec<ColumnDetail>)
        ensures
            details_of(r@) == self@.details(),
    {
        let mut details: Vec<ColumnDetail> = Vec::new();
        let mut c: usize = 0;
        while c < self.columns.len()
            invariant
                c <= self.columns.len(),
                details@.len() == c,
                forall|k: int| 0 <= k < c ==> (#[trigger] details@[k])@ == self@.details()[k],
            decreases self.columns.len() - c,
        {
            details.push(
                ColumnDetail {
                    name: self.columns[c].clone(),
                    data_type: String::from_str("UNKNOWN"),
                    is_nullable: true,
                    default_value: None,
                },
            );
            c += 1;
        }
        assert(details_of(details@) =~= self@.details());
        details
    }

    /// Turns the answer to a page request into the uniform result.
    pub fn page(&self, per_page: u32, probes_next: bool, duration_ms: Option<u64>) -> (r: TableData)
        ensures
            r@ == self@.table(per_page as nat, probes_next, duration_ms),
    {
        let data = page_of(self.details(), &self.rows, per_page, probes_next, duration_ms);
        proof {
            let kept = kept_rows(self.rows@.len(), per_page as nat, probes_next);
            assert(cell_texts(self.rows@, kept) =~~= self@.texts(kept));
            assert(detail_names(self@.details()) =~= self@.columns);
        }
        data
    }

    /// Turns the answer to an arbitrary statement into the uniform result:
    /// every row is kept and nothing follows.
    pub fn result(&self, duration_ms: Option<u64>) -> (r: TableData)
        ensures
            r@ == self@.table(0, false, duration_ms),
    {
        self.page(0, false, duration_ms)
    }
}

/// What is said of an answer in which some row does not hold one cell per
/// column.
pub open spec fn uneven_rows_text() -> Seq<char> {
    "The engine answered with rows of uneven width"@
}

/// The failure of an answer in which some row does not hold one cell per
/// column.
fn uneven_rows() -> (r: InspectorError)
    ensures
        r@ == ErrorView::QueryFailed(uneven_rows_text()),
{
    InspectorError::QueryFailed(String::from_str("The engine answered with rows of uneven width"))
}

/// What either engine answered.
#[derive(Debug, Clone)]
pub enum RawRows {
    MySql(MySqlRows),
    Sqlite(SqliteRows),
}

impl RawRows {
    /// Every row holds one cell per column.
    pub open spec fn wf(&self) -> bool {
        match self {
            RawRows::MySql(rows) => rows@.wf(),
            RawRows::Sqlite(rows) => rows@.wf(),
        }
    }

    /// The number of rows that the engine handed out.
    pub open spec fn fetched(&self) -> nat {
        match self {
            RawRows::MySql(rows) => rows@.rows.len(),
            RawRows::Sqlite(rows) => rows@.rows.len(),
        }
    }

    /// The uniform result for the answer to a page request.
    pub open spec fn table(
        &self,
        per_page: nat,
        probes_next: bool,
        duration_ms: Option<u64>,
    ) -> TableView {
        match self {
            RawRows::MySql(rows) => rows@.table(per_page, probes_next, duration_ms),
            RawRows::Sqlite(rows) => rows@.table(per_page, probes_next, duration_ms),
        }
    }

    /// Turns the answer to a page request into the uniform result.
    ///
    /// Fails with `QueryFailed` exactly when some row does not hold one cell
    /// per column. Where the statement probed for a further page, the result
    /// keeps no more rows than the page holds and `has_more` tells whether
    /// the engine handed out more. Otherwise every row is kept and `has_more`
    /// is false.
    pub fn into_page(&self, per_page: u32, probes_next: bool, duration_ms: Option<u64>) -> (r:
        Result<TableData, InspectorError>)
        ensures
            match r {
                Ok(data) => self.wf() && data.wf() && data@ == self.table(
                    per_page as nat,
                    probes_next,
                    duration_ms,
                ),
                Err(e) => e@ == ErrorView::QueryFailed(uneven_rows_text()) && !self.wf(),
            },
    {
        match self {
            RawRows::MySql(raw) => {
                if raw.is_aligned() {
                    proof {
                        lemma_mysql_table_is_well_formed(
                            raw@,
                            per_page as nat,
                            probes_next,
                            duration_ms,
                        );
                    }
                    Ok(raw.page(per_page, probes_next, duration_ms))
                } else {
                    Err(uneven_rows())
                }
            },
            RawRows::Sqlite(raw) => {
                if raw.is_aligned() {
                    proof {
                        lemma_sqlite_table_is_well_formed(
                            raw@,
                            per_page as nat,
                            probes_next,
                            duration_ms,
                        );
                    }
                    Ok(raw.page(per_page, probes_next, duration_ms))
                } else {
                    Err(uneven_rows())
                }
            },
        }
    }

    /// Turns the answer to an arbitrary statement into the uniform result:
    /// every row is kept and nothing follows.
    ///
    /// Fails with `QueryFailed` exactly when some row does not hold one cell
    /// per column.
    pub fn into_result(&self, duration_ms: Option<u64>) -> (r: Result<TableData, InspectorError>)
        ensures
            match r {
                Ok(data) => self.wf() && data.wf() && data@ == self.table(0, false, duration_ms),
                Err(e) => e@ == ErrorView::QueryFailed(uneven_rows_text()) && !self.wf(),
            },
    {
        self.into_page(0, false, duration_ms)
    }
}

/// The has-more probe is exact. Where `remaining` rows stand from the first
/// row of the page on and the engine hands out as many of them as the probing
/// statement admits, the page keeps the smaller of `remaining` and
/// `per_page`, so never more than `per_page`, and rows follow exactly when
/// more than `per_page` remained; none follow where exactly `per_page` did.
pub proof fn lemma_probe_is_exact(remaining: nat, per_page: nat)
    ensures
        kept_rows(at_most(remaining, probe_limit(per_page)), per_page, true) == at_most(
            remaining,
            per_page,
        ),
        kept_rows(at_most(remaining, probe_limit(per_page)), per_page, true) <= per_page,
        more_follow(at_most(remaining, probe_limit(per_page)), per_page, true) == (remaining
            > per_page),
        remaining == per_page ==> !more_follow(
            at_most(remaining, probe_limit(per_page)),
            per_page,
            true,
        ),
{
}

/// A page never holds more rows than were asked for per page where the
/// statement probed, whatever the engine handed out, and it tells that rows
/// follow exactly when the engine handed out more than the page holds.
pub proof fn lemma_page_is_bounded(raw: RawRows, per_page: nat, duration_ms: Option<u64>)
    ensures
        raw.table(per_page, true, duration_ms).rows.len() <= per_page,
        raw.table(per_page, true, duration_ms).rows.len() <= raw.fetched(),
        raw.table(per_page, true, duration_ms).has_more == (raw.fetched() > per_page),
{
}

/// An answer to a statement that did not probe is kept whole, and nothing
/// follows it.
pub proof fn lemma_unprobed_answer_is_whole(raw: RawRows, per_page: nat, duration_ms: Option<u64>)
    ensures
        raw.table(per_page, false, duration_ms).rows.len() == raw.fetched(),
        !raw.table(per_page, false, duration_ms).has_more,
{
}

/// What an update writes is what a later read shows. The update binds the
/// value of a changed column as it stands, and the cell that holds a bound
/// value has that value as its uniform text, in either engine: a text reads
/// back as the same text, and no value as no value.
pub proof fn lemma_update_reads_back(
    column: Seq<char>,
    value: Option<Seq<char>>,
    pk_column: Seq<char>,
)
    requires
        column != pk_column,
    ensures
        bound_values(seq![(column, value)], pk_column) == seq![value],
        sqlite_written(bound_values(seq![(column, value)], pk_column)[0]).normalized() == value,
        mysql_written(bound_values(seq![(column, value)], pk_column)[0]).normalized() == value,
{
    lemma_change_is_bound_as_written(column, value, pk_column);
    lemma_written_value_reads_back(value);
}

} // verus!
