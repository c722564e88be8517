//! Statement text and bound values for the operations of the inspector.
//!
//! Names cannot be bound as parameters, so they enter the text: a sort column
//! is quoted with the engine's quote character doubled inside it, and the
//! names of a mutation must pass the identifier allow-list. Values are always
//! bound.

use vstd::prelude::*;
use vstd::string::*;
use crate::error::{ErrorView, InspectorError};
use crate::identifier::{is_valid_identifier, valid_identifier};
use crate::text::{
    contains, contains_text, decimal_text, options_text, same_text, slice_text, text_of,
    texts_of, to_uppercase, trim, trimmed, u64_text, uppercase_of,
};

verus! {

/// The two engines that the inspector speaks to.
#[derive(Debug, Clone, Copy, PartialEq, Eq, Structural)]
pub enum Engine {
    /// Reached over the network with host, port and account.
    ClientServer,
    /// A database file below the project root.
    Embedded,
}

impl Engine {
    /// The character that the engine quotes a name with.
    pub open spec fn quote_char(self) -> char {
        match self {
            Engine::ClientServer => '`',
            Engine::Embedded => '"',
        }
    }

    /// The quote character as a string of one character.
    pub fn quote_str(self) -> (r: &'static str)
        ensures
            r@ == seq![self.quote_char()],
    {
        proof {
            reveal_strlit("`");
            reveal_strlit("\"");
        }
        let r = match self {
            Engine::ClientServer => "`",
            Engine::Embedded => "\"",
        };
        assert(r@ =~= seq![self.quote_char()]);
        r
    }
}

/// A statement with the values to bind to its placeholders, in order.
///
/// Where the statement binds by name, `names` holds the name of the
/// placeholder of each value; where it binds by position, `names` is empty.
#[derive(Debug, Clone)]
pub struct Statement {
    pub sql: String,
    pub params: Vec<Option<String>>,
    pub names: Vec<String>,
}

/// The mathematical value of a [`Statement`]: its text, the bound values in
/// order, an absent value standing for the engine's null, and the names of
/// their placeholders where it binds by name.
pub ghost struct StatementView {
    pub sql: Seq<char>,
    pub params: Seq<Option<Seq<char>>>,
    pub names: Seq<Seq<char>>,
}

impl View for Statement {
    type V = StatementView;

    open spec fn view(&self) -> StatementView {
        StatementView {
            sql: self.sql@,
            params: options_text(self.params@),
            names: texts_of(self.names@),
        }
    }
}

/// The statement with the text `sql` that binds nothing.
pub open spec fn unbound(sql: Seq<char>) -> StatementView {
    StatementView {
        sql,
        params: Seq::<Option<Seq<char>>>::empty(),
        names: Seq::<Seq<char>>::empty(),
    }
}

/// A change to a row: the column and the value to write, absent for the
/// engine's null.
pub type ChangeView = (Seq<char>, Option<Seq<char>>);

/// The mathematical value of a list of changes.
pub open spec fn changes_text(changes: Seq<(String, Option<String>)>) -> Seq<ChangeView> {
    Seq::new(changes.len(), |i: int| (changes[i].0@, text_of(changes[i].1)))
}

/// `name` with every quote character doubled.
pub open spec fn escaped(name: Seq<char>, q: char) -> Seq<char>
    decreases name.len(),
{
    if name.len() == 0 {
        Seq::<char>::empty()
    } else if name.last() == q {
        escaped(name.drop_last(), q).push(q).push(q)
    } else {
        escaped(name.drop_last(), q).push(name.last())
    }
}

/// `name` between quote characters, those inside it doubled.
pub open spec fn quoted(name: Seq<char>, q: char) -> Seq<char> {
    seq![q] + escaped(name, q) + seq![q]
}

/// Quotes a name for `engine`.
pub fn quote_identifier(engine: Engine, name: &str) -> (r: String)
    ensures
        r@ == quoted(name@, engine.quote_char()),
{
    let q = engine.quote_str();
    let n: usize = name.unicode_len();
    let mut out = String::from_str(q);
    let mut i: usize = 0;
    assert(name@.subrange(0, 0) =~= Seq::<char>::empty());
    assert(out@ =~= seq![engine.quote_char()] + escaped(name@.subrange(0, 0), engine.quote_char()));
    while i < n
        invariant
            n == name@.len(),
            i <= n,
            q@ == seq![engine.quote_char()],
            out@ == seq![engine.quote_char()] + escaped(
                name@.subrange(0, i as int),
                engine.quote_char(),
            ),
        decreases n - i,
    {
        let piece = name.substring_char(i, i + 1);
        let ghost before = name@.subrange(0, i as int);
        let ghost after = name@.subrange(0, i + 1);
        assert(after.drop_last() =~= before);
        assert(after.last() == name@[i as int]);
        assert(piece@ =~= seq![name@[i as int]]);
        out.append(piece);
        if matches_quote(piece, q) {
            out.append(q);
        }
        assert(out@ =~= seq![engine.quote_char()] + escaped(after, engine.quote_char()));
        i += 1;
    }
    assert(name@.subrange(0, n as int) =~= name@);
    out.append(q);
    out
}

/// Compares two strings of one character.
fn matches_quote(piece: &str, q: &str) -> (r: bool)
    requires
        piece@.len() == 1,
        q@.len() == 1,
    ensures
        r == (piece@[0] == q@[0]),
{
    piece.get_char(0) == q.get_char(0)
}

/// The filter that counts: a missing or blank one is none.
pub open spec fn effective_filter(filter: Option<Seq<char>>) -> Option<Seq<char>> {
    match filter {
        Some(f) => if trimmed(f).len() == 0 {
            None
        } else {
            Some(f)
        },
        None => None,
    }
}

/// The clause that applies a filter: the filter text as it stands, after
/// `WHERE`.
pub open spec fn where_clause(filter: Option<Seq<char>>) -> Seq<char> {
    match effective_filter(filter) {
        Some(f) => " WHERE "@ + f,
        None => Seq::<char>::empty(),
    }
}

/// An upper-cased filter bounds its own rows when it holds `LIMIT`.
pub open spec fn names_limit(upper: Seq<char>) -> bool {
    contains_text(upper, "LIMIT"@)
}

/// The filter counts and bounds its own rows.
pub open spec fn has_own_limit(filter: Option<Seq<char>>) -> bool {
    match effective_filter(filter) {
        Some(f) => names_limit(uppercase_of(f)),
        None => false,
    }
}

/// Only the exact text `DESC` sorts downwards.
pub open spec fn is_descending(direction: Option<Seq<char>>) -> bool {
    direction == Some("DESC"@)
}

/// The clause that sorts by a column, empty where none is given.
pub open spec fn order_clause(
    engine: Engine,
    sort_column: Option<Seq<char>>,
    sort_direction: Option<Seq<char>>,
) -> Seq<char> {
    match sort_column {
        Some(c) => " ORDER BY "@ + quoted(c, engine.quote_char()) + (if is_descending(
            sort_direction,
        ) {
            " DESC"@
        } else {
            " ASC"@
        }),
        None => Seq::<char>::empty(),
    }
}

/// The number of rows that a page request asks the engine for: one more than
/// the page holds, to learn whether another page follows.
pub open spec fn probe_limit(per_page: nat) -> nat {
    per_page + 1
}

/// The number of rows before the first row of page `page`, counted from 1.
pub open spec fn page_offset(page: nat, per_page: nat) -> nat {
    ((page - 1) * per_page) as nat
}

/// The clause that bounds the rows of a page.
pub open spec fn limit_clause(page: nat, per_page: nat) -> Seq<char> {
    " LIMIT "@ + decimal_text(probe_limit(per_page)) + " OFFSET "@ + decimal_text(
        page_offset(page, per_page),
    )
}

/// The text of the statement that selects a page.
///
/// Where `own_limit` says that the filter bounds its own rows, nothing
/// follows the filter: no sort clause and no bounds. Otherwise the sort clause
/// and the bounds of the page follow.
pub open spec fn page_select(
    engine: Engine,
    table: Seq<char>,
    page: nat,
    per_page: nat,
    filter: Option<Seq<char>>,
    own_limit: bool,
    sort_column: Option<Seq<char>>,
    sort_direction: Option<Seq<char>>,
) -> Seq<char> {
    "SELECT * FROM "@ + table + where_clause(filter) + (if own_limit {
        Seq::<char>::empty()
    } else {
        order_clause(engine, sort_column, sort_direction) + limit_clause(page, per_page)
    })
}

/// The text of the statement that counts the rows of a table under a filter.
/// The filter is kept as it stands.
pub open spec fn count_select(table: Seq<char>, filter: Option<Seq<char>>) -> Seq<char> {
    "SELECT COUNT(*) FROM "@ + table + where_clause(filter)
}

/// Decides whether a filter counts.
pub fn filter_counts(filter: Option<&str>) -> (r: bool)
    ensures
        r == (effective_filter(slice_text(filter)) is Some),
{
    match filter {
        Some(f) => trim(f).unicode_len() != 0,
        None => false,
    }
}

/// Decides whether an upper-cased filter holds `LIMIT`.
pub fn upper_names_limit(upper: &str) -> (r: bool)
    ensures
        r == names_limit(upper@),
{
    contains(upper, "LIMIT")
}

/// Decides whether a filter bounds its own rows.
pub fn filter_has_limit(filter: Option<&str>) -> (r: bool)
    ensures
        r == has_own_limit(slice_text(filter)),
{
    match filter {
        Some(f) => {
            if filter_counts(filter) {
                let upper = to_uppercase(f);
                upper_names_limit(upper.as_str())
            } else {
                false
            }
        },
        None => false,
    }
}

/// Appends the clause that applies `filter`.
fn push_where(sql: &mut String, filter: Option<&str>)
    ensures
        final(sql)@ == old(sql)@ + where_clause(slice_text(filter)),
{
    let ghost before = sql@;
    if filter_counts(filter) {
        match filter {
            Some(f) => {
                sql.append(" WHERE ");
                sql.append(f);
                assert(sql@ =~= before + (" WHERE "@ + f@));
            },
            None => {},
        }
    } else {
        assert(sql@ =~= before + Seq::<char>::empty());
    }
}

/// Appends the clause that sorts by `sort_column`.
fn push_order(
    sql: &mut String,
    engine: Engine,
    sort_column: Option<&str>,
    sort_direction: Option<&str>,
)
    ensures
        final(sql)@ == old(sql)@ + order_clause(
            engine,
            slice_text(sort_column),
            slice_text(sort_direction),
        ),
{
    let ghost before = sql@;
    match sort_column {
        Some(c) => {
            let name = quote_identifier(engine, c);
            let descending = match sort_direction {
                Some(d) => same_text(d, "DESC"),
                None => false,
            };
            sql.append(" ORDER BY ");
            sql.append(name.as_str());
            if descending {
                sql.append(" DESC");
            } else {
                sql.append(" ASC");
            }
            assert(sql@ =~= before + order_clause(
                engine,
                slice_text(sort_column),
                slice_text(sort_direction),
            ));
        },
        None => {
            assert(sql@ =~= before + Seq::<char>::empty());
        },
    }
}

/// Appends the clause that bounds the rows of a page.
fn push_limit(sql: &mut String, page: u32, per_page: u32)
    requires
        page >= 1,
    ensures
        final(sql)@ == old(sql)@ + limit_clause(page as nat, per_page as nat),
{
    let ghost before = sql@;
    let limit: u64 = per_page as u64 + 1;
    let pages_before: u64 = (page - 1) as u64;
    let page_size: u64 = per_page as u64;
    assert(pages_before * page_size <= 0xFFFF_FFFF * 0xFFFF_FFFF) by (nonlinear_arith)
        requires
            pages_before <= 0xFFFF_FFFF,
            page_size <= 0xFFFF_FFFF,
    ;
    let rows_before: u64 = pages_before * page_size;
    let limit_text = u64_text(limit);
    let offset_text = u64_text(rows_before);
    sql.append(" LIMIT ");
    sql.append(limit_text.as_str());
    sql.append(" OFFSET ");
    sql.append(offset_text.as_str());
    assert(sql@ =~= before + limit_clause(page as nat, per_page as nat));
}

/// Writes the statement that selects page `page` of `table`, given whether
/// the filter bounds its own rows.
pub fn page_select_text(
    engine: Engine,
    table: &str,
    page: u32,
    per_page: u32,
    filter: Option<&str>,
    own_limit: bool,
    sort_column: Option<&str>,
    sort_direction: Option<&str>,
) -> (r: String)
    requires
        page >= 1,
    ensures
        r@ == page_select(
            engine,
            table@,
            page as nat,
            per_page as nat,
            slice_text(filter),
            own_limit,
            slice_text(sort_column),
            slice_text(sort_direction),
        ),
{
    let mut sql = String::from_str("SELECT * FROM ");
    sql.append(table);
    push_where(&mut sql, filter);
    let ghost head = sql@;
    if !own_limit {
        push_order(&mut sql, engine, sort_column, sort_direction);
        push_limit(&mut sql, page, per_page);
        assert(sql@ =~= head + (order_clause(
            engine,
            slice_text(sort_column),
            slice_text(sort_direction),
        ) + limit_clause(page as nat, per_page as nat)));
    } else {
        assert(sql@ =~= head + Seq::<char>::empty());
    }
    sql
}

/// Makes the statement with the text `sql` that binds nothing.
pub fn unbound_statement(sql: String) -> (r: Statement)
    ensures
        r@ == unbound(sql@),
{
    let st = Statement { sql, params: Vec::new(), names: Vec::new() };
    assert(st@.params =~= Seq::<Option<Seq<char>>>::empty());
    assert(st@.names =~= Seq::<Seq<char>>::empty());
    st
}

/// Writes the statement that counts the rows of `table` under `filter`.
pub fn count_statement(table: &str, filter: Option<&str>) -> (r: Statement)
    ensures
        r@ == unbound(count_select(table@, slice_text(filter))),
{
    let mut sql = String::from_str("SELECT COUNT(*) FROM ");
    sql.append(table);
    push_where(&mut sql, filter);
    unbound_statement(sql)
}

/// The text of the statement that lists the user tables of an engine, its own
/// catalog tables left out.
pub open spec fn tables_select(engine: Engine) -> Seq<char> {
    match engine {
        Engine::ClientServer => "SHOW TABLES"@,
        Engine::Embedded => "SELECT name FROM sqlite_master WHERE type='table' AND name NOT LIKE 'sqlite_%'"@,
    }
}

/// Writes the statement that lists the user tables.
pub fn tables_statement(engine: Engine) -> (r: Statement)
    ensures
        r@ == unbound(tables_select(engine)),
{
    let sql = match engine {
        Engine::ClientServer => String::from_str("SHOW TABLES"),
        Engine::Embedded => String::from_str(
            "SELECT name FROM sqlite_master WHERE type='table' AND name NOT LIKE 'sqlite_%'",
        ),
    };
    unbound_statement(sql)
}

/// The placeholder that stands for the key of the row in a `DELETE`: one by
/// name for the client/server engine, one by number for the embedded engine.
pub open spec fn key_placeholder(engine: Engine) -> Seq<char> {
    match engine {
        Engine::ClientServer => " = :value"@,
        Engine::Embedded => " = ?1"@,
    }
}

/// The names under which a `DELETE` binds its one value.
pub open spec fn key_names(engine: Engine) -> Seq<Seq<char>> {
    match engine {
        Engine::ClientServer => seq!["value"@],
        Engine::Embedded => Seq::<Seq<char>>::empty(),
    }
}

/// The text of the statement that deletes the rows of `table` whose column
/// `pk_column` holds the bound value.
pub open spec fn delete_sql(engine: Engine, table: Seq<char>, pk_column: Seq<char>) -> Seq<char> {
    "DELETE FROM "@ + quoted(table, engine.quote_char()) + " WHERE "@ + quoted(
        pk_column,
        engine.quote_char(),
    ) + key_placeholder(engine)
}

/// The plan for the deletion of the rows whose key column holds `pk_value`.
///
/// It fails with `InvalidIdentifier` exactly when the table or the key column
/// is no valid identifier. The key's value is bound.
pub open spec fn delete_plan(
    engine: Engine,
    table: Seq<char>,
    pk_column: Seq<char>,
    pk_value: Seq<char>,
) -> Result<StatementView, ErrorView> {
    if valid_identifier(table) && valid_identifier(pk_column) {
        Ok(
            StatementView {
                sql: delete_sql(engine, table, pk_column),
                params: seq![Some(pk_value)],
                names: key_names(engine),
            },
        )
    } else {
        Err(ErrorView::InvalidIdentifier)
    }
}

/// Plans the deletion of a row.
pub fn delete_statement(engine: Engine, table: &str, pk_column: &str, pk_value: &str) -> (r: Result<
    Statement,
    InspectorError,
>)
    ensures
        match r {
            Ok(st) => delete_plan(engine, table@, pk_column@, pk_value@) == Ok::<
                StatementView,
                ErrorView,
            >(st@),
            Err(e) => delete_plan(engine, table@, pk_column@, pk_value@) == Err::<
                StatementView,
                ErrorView,
            >(e@),
        },
{
    if !is_valid_identifier(table) || !is_valid_identifier(pk_column) {
        return Err(InspectorError::InvalidIdentifier);
    }
    let table_name = quote_identifier(engine, table);
    let key_name = quote_identifier(engine, pk_column);
    let mut sql = String::from_str("DELETE FROM ");
    sql.append(table_name.as_str());
    sql.append(" WHERE ");
    sql.append(key_name.as_str());
    let mut names: Vec<String> = Vec::new();
    match engine {
        Engine::ClientServer => {
            sql.append(" = :value");
            names.push(String::from_str("value"));
        },
        Engine::Embedded => {
            sql.append(" = ?1");
        },
    }
    assert(sql@ =~= delete_sql(engine, table@, pk_column@));
    assert(texts_of(names@) =~= key_names(engine));
    let mut params: Vec<Option<String>> = Vec::new();
    params.push(Some(String::from_str(pk_value)));
    assert(options_text(params@) =~= seq![Some(pk_value@)]);
    Ok(Statement { sql, params, names })
}

/// The changes are a mapping: no column is changed twice.
pub open spec fn distinct_columns(changes: Seq<ChangeView>) -> bool {
    forall|i: int, j: int|
        0 <= i < j < changes.len() ==> (#[trigger] changes[i]).0 != (#[trigger] changes[j]).0
}

/// Decides whether no column is changed twice.
pub fn columns_are_distinct(changes: &Vec<(String, Option<String>)>) -> (r: bool)
    ensures
        r == distinct_columns(changes_text(changes@)),
{
    let ghost all = changes_text(changes@);
    let mut j: usize = 0;
    while j < changes.len()
        invariant
            j <= changes.len(),
            all == changes_text(changes@),
            forall|a: int, b: int|
                0 <= a < b < j ==> (#[trigger] all[a]).0 != (#[trigger] all[b]).0,
        decreases changes.len() - j,
    {
        let mut i: usize = 0;
        while i < j
            invariant
                i <= j < changes.len(),
                all == changes_text(changes@),
                forall|a: int| 0 <= a < i ==> (#[trigger] all[a]).0 != all[j as int].0,
            decreases j - i,
        {
            assert(all[i as int].0 == changes@[i as int].0@);
            assert(all[j as int].0 == changes@[j as int].0@);
            if same_text(changes[i].0.as_str(), changes[j].0.as_str()) {
                return false;
            }
            i += 1;
        }
        j += 1;
    }
    true
}

/// Every column named by a change is a valid identifier.
pub open spec fn change_names_valid(changes: Seq<ChangeView>) -> bool {
    forall|i: int| 0 <= i < changes.len() ==> valid_identifier((#[trigger] changes[i]).0)
}

/// The values that an update binds for its changes, in their order. A change
/// to the key column itself is left out.
pub open spec fn bound_values(changes: Seq<ChangeView>, pk_column: Seq<char>) -> Seq<
    Option<Seq<char>>,
>
    decreases changes.len(),
{
    if changes.len() == 0 {
        Seq::<Option<Seq<char>>>::empty()
    } else if changes.last().0 == pk_column {
        bound_values(changes.drop_last(), pk_column)
    } else {
        bound_values(changes.drop_last(), pk_column).push(changes.last().1)
    }
}

/// The assignments of an update, separated by `, `, in the order of the
/// changes. A change to the key column itself is left out.
pub open spec fn set_list(engine: Engine, changes: Seq<ChangeView>, pk_column: Seq<char>) -> Seq<
    char,
>
    decreases changes.len(),
{
    if changes.len() == 0 {
        Seq::<char>::empty()
    } else if changes.last().0 == pk_column {
        set_list(engine, changes.drop_last(), pk_column)
    } else {
        set_list(engine, changes.drop_last(), pk_column) + (if bound_values(
            changes.drop_last(),
            pk_column,
        ).len() == 0 {
            Seq::<char>::empty()
        } else {
            ", "@
        }) + quoted(changes.last().0, engine.quote_char()) + " = ?"@
    }
}

/// The text of the statement that updates a row.
pub open spec fn update_sql(
    engine: Engine,
    table: Seq<char>,
    pk_column: Seq<char>,
    changes: Seq<ChangeView>,
) -> Seq<char> {
    "UPDATE "@ + quoted(table, engine.quote_char()) + " SET "@ + set_list(
        engine,
        changes,
        pk_column,
    ) + " WHERE "@ + quoted(pk_column, engine.quote_char()) + " = ?"@
}

/// Decides whether every change names a valid column.
pub fn changes_are_valid(changes: &Vec<(String, Option<String>)>) -> (r: bool)
    ensures
        r == change_names_valid(changes_text(changes@)),
{
    let ghost all = changes_text(changes@);
    let mut i: usize = 0;
    while i < changes.len()
        invariant
            i <= changes.len(),
            all == changes_text(changes@),
            forall|k: int| 0 <= k < i ==> valid_identifier((#[trigger] all[k]).0),
        decreases changes.len() - i,
    {
        assert(all[i as int].0 == changes@[i as int].0@);
        if !is_valid_identifier(changes[i].0.as_str()) {
            return false;
        }
        i += 1;
    }
    true
}

/// The plan for the update of the row whose key column holds `pk_value`,
/// for changes that are a mapping.
///
/// It fails with `InvalidIdentifier` exactly when the table, the key column
/// or a changed column is no valid identifier. It is `None`, an update that
/// affects no row and needs no statement, where no change is left once the
/// key column is set aside. Otherwise the statement assigns each changed
/// column a bound value and binds the key's value last.
pub open spec fn update_plan(
    engine: Engine,
    table: Seq<char>,
    pk_column: Seq<char>,
    pk_value: Seq<char>,
    changes: Seq<ChangeView>,
) -> Result<Option<StatementView>, ErrorView> {
    if !(valid_identifier(table) && valid_identifier(pk_column) && change_names_valid(changes)) {
        Err(ErrorView::InvalidIdentifier)
    } else if bound_values(changes, pk_column).len() == 0 {
        Ok(None)
    } else {
        Ok(
            Some(
                StatementView {
                    sql: update_sql(engine, table, pk_column, changes),
                    params: bound_values(changes, pk_column).push(Some(pk_value)),
                    names: Seq::<Seq<char>>::empty(),
                },
            ),
        )
    }
}

/// `r` is what the plan `expected` says.
pub open spec fn is_update_plan(
    r: Result<Option<Statement>, InspectorError>,
    expected: Result<Option<StatementView>, ErrorView>,
) -> bool {
    match r {
        Ok(Some(st)) => expected == Ok::<Option<StatementView>, ErrorView>(Some(st@)),
        Ok(None) => expected == Ok::<Option<StatementView>, ErrorView>(None),
        Err(e) => expected == Err::<Option<StatementView>, ErrorView>(e@),
    }
}

/// Plans the update of a row. The changes are a mapping: no column is
/// changed twice.
pub fn update_statement(
    engine: Engine,
    table: &str,
    pk_column: &str,
    pk_value: &str,
    changes: &Vec<(String, Option<String>)>,
) -> (r: Result<Option<Statement>, InspectorError>)
    requires
        distinct_columns(changes_text(changes@)),
    ensures
        is_update_plan(
            r,
            update_plan(engine, table@, pk_column@, pk_value@, changes_text(changes@)),
        ),
{
    if !is_valid_identifier(table) || !is_valid_identifier(pk_column) || !changes_are_valid(
        changes,
    ) {
        return Err(InspectorError::InvalidIdentifier);
    }
    let ghost all = changes_text(changes@);
    let mut sets = String::new();
    let mut params: Vec<Option<String>> = Vec::new();
    let mut i: usize = 0;
    assert(all.subrange(0, 0) =~= Seq::<ChangeView>::empty());
    assert(options_text(params@) =~= bound_values(all.subrange(0, 0), pk_column@));
    while i < changes.len()
        invariant
            i <= changes.len(),
            all == changes_text(changes@),
            sets@ == set_list(engine, all.subrange(0, i as int), pk_column@),
            options_text(params@) == bound_values(all.subrange(0, i as int), pk_column@),
        decreases changes.len() - i,
    {
        let ghost before = all.subrange(0, i as int);
        let ghost after = all.subrange(0, i + 1);
        let ghost old_params = params@;
        assert(after.drop_last() =~= before);
        assert(after.last() == (changes@[i as int].0@, text_of(changes@[i as int].1)));
        if !same_text(changes[i].0.as_str(), pk_column) {
            if params.len() > 0 {
                sets.append(", ");
            }
            let name = quote_identifier(engine, changes[i].0.as_str());
            sets.append(name.as_str());
            sets.append(" = ?");
            let value = match &changes[i].1 {
                Some(v) => Some(v.clone()),
                None => None,
            };
            params.push(value);
            assert(options_text(params@) =~= options_text(old_params).push(
                text_of(changes@[i as int].1),
            ));
            assert(sets@ =~= set_list(engine, after, pk_column@));
        }
        i += 1;
    }
    assert(all.subrange(0, changes.len() as int) =~= all);
    if params.len() == 0 {
        return Ok(None);
    }
    let table_name = quote_identifier(engine, table);
    let key_name = quote_identifier(engine, pk_column);
    let mut sql = String::from_str("UPDATE ");
    sql.append(table_name.as_str());
    sql.append(" SET ");
    sql.append(sets.as_str());
    sql.append(" WHERE ");
    sql.append(key_name.as_str());
    sql.append(" = ?");
    assert(sql@ =~= update_sql(engine, table@, pk_column@, all));
    let ghost old_params = params@;
    params.push(Some(String::from_str(pk_value)));
    assert(options_text(params@) =~= options_text(old_params).push(Some(pk_value@)));
    let st = Statement { sql, params, names: Vec::new() };
    assert(st@.names =~= Seq::<Seq<char>>::empty());
    Ok(Some(st))
}

/// A mutation that names a table, a key column or a changed column outside
/// the allow-list fails with `InvalidIdentifier` and plans no statement,
/// whatever else it holds.
pub proof fn lemma_unsafe_names_fail(
    engine: Engine,
    table: Seq<char>,
    pk_column: Seq<char>,
    pk_value: Seq<char>,
    changes: Seq<ChangeView>,
)
    requires
        !valid_identifier(table) || !valid_identifier(pk_column) || exists|i: int|
            0 <= i < changes.len() && !valid_identifier((#[trigger] changes[i]).0),
    ensures
        update_plan(engine, table, pk_column, pk_value, changes) == Err::<
            Option<StatementView>,
            ErrorView,
        >(ErrorView::InvalidIdentifier),
        !valid_identifier(table) || !valid_identifier(pk_column) ==> delete_plan(
            engine,
            table,
            pk_column,
            pk_value,
        ) == Err::<StatementView, ErrorView>(ErrorView::InvalidIdentifier),
{
}

/// Consecutive pages tile the table: a page begins where the page before it
/// ended.
pub proof fn lemma_pages_are_consecutive(page: nat, per_page: nat)
    requires
        page >= 1,
    ensures
        page_offset(1, per_page) == 0,
        page_offset(page + 1, per_page) == page_offset(page, per_page) + per_page,
{
    assert((page + 1 - 1) * per_page == (page - 1) * per_page + per_page) by (nonlinear_arith);
    assert((page - 1) * per_page >= 0) by (nonlinear_arith)
        requires
            page >= 1,
    ;
}

/// A name without the quote character is escaped as it stands.
pub proof fn lemma_escaped_without_quote(name: Seq<char>, q: char)
    requires
        forall|i: int| 0 <= i < name.len() ==> name[i] != q,
    ensures
        escaped(name, q) == name,
    decreases name.len(),
{
    if name.len() > 0 {
        lemma_escaped_without_quote(name.drop_last(), q);
        assert(name.drop_last().push(name.last()) =~= name);
    }
}

/// A valid identifier enters a statement as it stands, between the quote
/// characters of the engine: nothing in it needs escaping.
pub proof fn lemma_valid_identifier_is_quoted_plainly(engine: Engine, name: Seq<char>)
    requires
        valid_identifier(name),
    ensures
        quoted(name, engine.quote_char()) == seq![engine.quote_char()] + name + seq![
            engine.quote_char(),
        ],
{
    assert forall|i: int| 0 <= i < name.len() implies name[i] != engine.quote_char() by {
        assert(crate::identifier::is_identifier_char(name[i]));
    }
    lemma_escaped_without_quote(name, engine.quote_char());
}

/// An update binds the value of a changed column as it stands: the text
/// where there is one, no value where there is none.
pub proof fn lemma_change_is_bound_as_written(
    column: Seq<char>,
    value: Option<Seq<char>>,
    pk_column: Seq<char>,
)
    requires
        column != pk_column,
    ensures
        bound_values(seq![(column, value)], pk_column) == seq![value],
{
    let changes = seq![(column, value)];
    reveal_with_fuel(bound_values, 2);
    assert(changes.last() == (column, value));
    assert(changes.drop_last() =~= Seq::<ChangeView>::empty());
    assert(bound_values(changes, pk_column) =~= seq![value]);
}

/// Two lists of changes name the same columns in the same order.
pub open spec fn same_columns(a: Seq<ChangeView>, b: Seq<ChangeView>) -> bool {
    a.len() == b.len() && forall|i: int| 0 <= i < a.len() ==> (#[trigger] a[i]).0 == b[i].0
}

/// Values never enter the text of an update: two updates that change the
/// same columns have the same text, whatever values they write.
pub proof fn lemma_update_text_ignores_values(
    engine: Engine,
    table: Seq<char>,
    pk_column: Seq<char>,
    a: Seq<ChangeView>,
    b: Seq<ChangeView>,
)
    requires
        same_columns(a, b),
    ensures
        bound_values(a, pk_column).len() == bound_values(b, pk_column).len(),
        set_list(engine, a, pk_column) == set_list(engine, b, pk_column),
        update_sql(engine, table, pk_column, a) == update_sql(engine, table, pk_column, b),
    decreases a.len(),
{
    if a.len() > 0 {
        assert(a.last().0 == b.last().0) by {
            assert(a[a.len() - 1].0 == b[a.len() - 1].0);
        }
        assert(same_columns(a.drop_last(), b.drop_last())) by {
            assert forall|i: int| 0 <= i < a.drop_last().len() implies (
            #[trigger] a.drop_last()[i]).0 == b.drop_last()[i].0 by {
                assert(a[i].0 == b[i].0);
            }
        }
        lemma_update_text_ignores_values(engine, table, pk_column, a.drop_last(), b.drop_last());
    }
}

/// A change to the key column itself is never bound.
pub proof fn lemma_key_change_is_left_out(value: Option<Seq<char>>, pk_column: Seq<char>)
    ensures
        bound_values(seq![(pk_column, value)], pk_column).len() == 0,
{
    let changes = seq![(pk_column, value)];
    reveal_with_fuel(bound_values, 2);
    assert(changes.last() == (pk_column, value));
    assert(changes.drop_last() =~= Seq::<ChangeView>::empty());
}

} // verus!
