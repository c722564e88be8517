//! Connection parameters and the uniform shape of a query result.

use vstd::prelude::*;
use vstd::string::*;
use crate::text::{number_up_to, options_text, parse_up_to, same_text, text_of, texts_of};

verus! {

/// How to reach the database of a project.
///
/// `connection` is `"mysql"` for the client/server engine and `"sqlite"` for
/// the embedded one. For the embedded engine `database` is a path below the
/// project root, for the client/server engine the name of a schema.
#[derive(Debug, Clone)]
pub struct DbCredentials {
    pub host: Option<String>,
    pub port: Option<String>,
    pub database: String,
    pub username: Option<String>,
    pub password: Option<String>,
    pub connection: String,
}

/// The mathematical value of a [`DbCredentials`].
pub ghost struct CredentialsView {
    pub host: Option<Seq<char>>,
    pub port: Option<Seq<char>>,
    pub database: Seq<char>,
    pub username: Option<Seq<char>>,
    pub password: Option<Seq<char>>,
    pub connection: Seq<char>,
}

impl View for DbCredentials {
    type V = CredentialsView;

    open spec fn view(&self) -> CredentialsView {
        CredentialsView {
            host: text_of(self.host),
            port: text_of(self.port),
            database: self.database@,
            username: text_of(self.username),
            password: text_of(self.password),
            connection: self.connection@,
        }
    }
}

/// The value of optional credentials.
pub open spec fn credentials_of(o: Option<DbCredentials>) -> Option<CredentialsView> {
    match o {
        Some(c) => Some(c@),
        None => None,
    }
}

/// One column of a result.
#[derive(Debug, Clone)]
pub struct ColumnDetail {
    pub name: String,
    pub data_type: String,
    pub is_nullable: bool,
    pub default_value: Option<String>,
}

/// The mathematical value of a [`ColumnDetail`].
pub ghost struct ColumnDetailView {
    pub name: Seq<char>,
    pub data_type: Seq<char>,
    pub is_nullable: bool,
    pub default_value: Option<Seq<char>>,
}

impl View for ColumnDetail {
    type V = ColumnDetailView;

    open spec fn view(&self) -> ColumnDetailView {
        ColumnDetailView {
            name: self.name@,
            data_type: self.data_type@,
            is_nullable: self.is_nullable,
            default_value: text_of(self.default_value),
        }
    }
}

/// The values of column details, in order.
pub open spec fn details_of(details: Seq<ColumnDetail>) -> Seq<ColumnDetailView> {
    Seq::new(details.len(), |c: int| details[c]@)
}

/// The values of rows of cells, in order.
pub open spec fn rows_text(rows: Seq<Vec<Option<String>>>) -> Seq<Seq<Option<Seq<char>>>> {
    Seq::new(rows.len(), |i: int| options_text(rows[i]@))
}

/// A result in uniform shape: the columns in order, and for each row one
/// optional text per column, in the order of the columns.
///
/// `total` is the number of rows held, modulo 2^32. `has_more` tells that
/// rows follow the held page.
#[derive(Debug, Clone)]
pub struct TableData {
    pub total: u32,
    pub has_more: bool,
    pub columns: Vec<String>,
    pub column_details: Vec<ColumnDetail>,
    pub rows: Vec<Vec<Option<String>>>,
    pub execution_duration_ms: Option<u64>,
}

/// The mathematical value of a [`TableData`]. A cell without a value is
/// `None`.
pub ghost struct TableView {
    pub total: nat,
    pub has_more: bool,
    pub columns: Seq<Seq<char>>,
    pub column_details: Seq<ColumnDetailView>,
    pub rows: Seq<Seq<Option<Seq<char>>>>,
    pub execution_duration_ms: Option<u64>,
}

impl View for TableData {
    type V = TableView;

    open spec fn view(&self) -> TableView {
        TableView {
            total: self.total as nat,
            has_more: self.has_more,
            columns: texts_of(self.columns@),
            column_details: details_of(self.column_details@),
            rows: rows_text(self.rows@),
            execution_duration_ms: self.execution_duration_ms,
        }
    }
}

/// The position of the last column called `name`, if there is one.
pub open spec fn last_named(columns: Seq<Seq<char>>, name: Seq<char>) -> Option<int>
    decreases columns.len(),
{
    if columns.len() == 0 {
        None
    } else if columns.last() == name {
        Some(columns.len() - 1)
    } else {
        last_named(columns.drop_last(), name)
    }
}

/// The texts in the first column of rows, in the order of the rows. A row
/// without cells or with no value in its first cell gives none.
pub open spec fn first_texts(rows: Seq<Seq<Option<Seq<char>>>>) -> Seq<Seq<char>>
    decreases rows.len(),
{
    if rows.len() == 0 {
        Seq::<Seq<char>>::empty()
    } else if rows.last().len() > 0 && rows.last()[0] is Some {
        first_texts(rows.drop_last()).push(rows.last()[0]->0)
    } else {
        first_texts(rows.drop_last())
    }
}

/// The number that the first cell of the first row writes; 0 where there is
/// no such cell or it writes no number that fits 64 bits.
pub open spec fn first_count(rows: Seq<Seq<Option<Seq<char>>>>) -> nat {
    if rows.len() > 0 && rows[0].len() > 0 && rows[0][0] is Some {
        match number_up_to(rows[0][0]->0, u64::MAX as nat) {
            Ok(n) => n,
            Err(_) => 0,
        }
    } else {
        0
    }
}

impl TableView {
    /// The details are aligned with the columns, and every row holds one cell
    /// per column.
    pub open spec fn wf(self) -> bool {
        &&& self.column_details.len() == self.columns.len()
        &&& forall|c: int|
            0 <= c < self.columns.len() ==> (#[trigger] self.column_details[c]).name
                == self.columns[c]
        &&& forall|i: int|
            0 <= i < self.rows.len() ==> (#[trigger] self.rows[i]).len() == self.columns.len()
    }

    /// What row `row` holds under the column name `name`: the cell of the last
    /// column of that name. `None` where the row, the name or the cell is
    /// missing.
    pub open spec fn named_cell(self, row: int, name: Seq<char>) -> Option<Option<Seq<char>>> {
        if 0 <= row < self.rows.len() {
            match last_named(self.columns, name) {
                Some(c) => if 0 <= c < self.rows[row].len() {
                    Some(self.rows[row][c])
                } else {
                    None
                },
                None => None,
            }
        } else {
            None
        }
    }
}

impl TableData {
    /// The details are aligned with the columns, and every row holds one cell
    /// per column.
    pub open spec fn wf(&self) -> bool {
        self@.wf()
    }

    /// The names that a listing of tables holds: the texts of its first
    /// column.
    pub fn first_column(&self) -> (r: Vec<String>)
        ensures
            texts_of(r@) == first_texts(self@.rows),
    {
        let ghost all = self@.rows;
        let mut names: Vec<String> = Vec::new();
        let mut i: usize = 0;
        assert(all.subrange(0, 0) =~= Seq::<Seq<Option<Seq<char>>>>::empty());
        assert(texts_of(names@) =~= first_texts(all.subrange(0, 0)));
        while i < self.rows.len()
            invariant
                i <= self.rows.len(),
                all == self@.rows,
                texts_of(names@) == first_texts(all.subrange(0, i as int)),
            decreases self.rows.len() - i,
        {
            let ghost before = all.subrange(0, i as int);
            let ghost after = all.subrange(0, i + 1);
            let ghost held = names@;
            assert(after.drop_last() =~= before);
            assert(after.last() == options_text(self.rows@[i as int]@));
            if self.rows[i].len() > 0 {
                match &self.rows[i][0] {
                    Some(name) => {
                        names.push(name.clone());
                        assert(texts_of(names@) =~= texts_of(held).push(name@));
                    },
                    None => {},
                }
            }
            i += 1;
        }
        assert(all.subrange(0, self.rows.len() as int) =~= all);
        names
    }

    /// The count that the answer to a counting statement holds.
    pub fn count(&self) -> (r: u64)
        ensures
            r as nat == first_count(self@.rows),
    {
        if self.rows.len() > 0 && self.rows[0].len() > 0 {
            assert(self@.rows[0] == options_text(self.rows@[0]@));
            match &self.rows[0][0] {
                Some(text) => match parse_up_to(text.as_str(), u64::MAX) {
                    Ok(n) => n,
                    Err(_) => 0,
                },
                None => 0,
            }
        } else {
            assert(self.rows@.len() > 0 ==> self@.rows[0] == options_text(self.rows@[0]@));
            0
        }
    }

    /// Finds the last column called `name`.
    pub fn column_index(&self, name: &str) -> (r: Option<usize>)
        ensures
            match r {
                Some(c) => last_named(self@.columns, name@) == Some(c as int) && c
                    < self@.columns.len(),
                None => last_named(self@.columns, name@) is None,
            },
    {
        let ghost all = self@.columns;
        let mut i: usize = self.columns.len();
        assert(all.subrange(0, i as int) =~= all);
        while i > 0
            invariant
                i <= self.columns@.len(),
                all == self@.columns,
                last_named(all, name@) == last_named(all.subrange(0, i as int), name@),
            decreases i,
        {
            let ghost here = all.subrange(0, i as int);
            assert(here.last() == self.columns@[i - 1]@);
            assert(here.drop_last() =~= all.subrange(0, i - 1));
            if same_text(self.columns[i - 1].as_str(), name) {
                return Some(i - 1);
            }
            i -= 1;
        }
        None
    }

    /// Reads the cell that row `row` holds under the column name `name`.
    pub fn cell(&self, row: usize, name: &str) -> (r: Option<Option<String>>)
        ensures
            match r {
                Some(v) => self@.named_cell(row as int, name@) == Some(text_of(v)),
                None => self@.named_cell(row as int, name@) is None,
            },
    {
        if row >= self.rows.len() {
            return None;
        }
        match self.column_index(name) {
            Some(c) => {
                assert(self@.rows[row as int] == options_text(self.rows@[row as int]@));
                if c >= self.rows[row].len() {
                    return None;
                }
                match &self.rows[row][c] {
                    Some(v) => Some(Some(v.clone())),
                    None => Some(None),
                }
            },
            None => None,
        }
    }
}

} // verus!
