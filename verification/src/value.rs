//! The cells of the two engines and their uniform text.
//!
//! Every cell that leaves the inspector is optional text: absent where the
//! engine holds no value, else the value written out. A floating-point value
//! enters the library as the decimal text that its holder wrote for it.

use vstd::prelude::*;
use vstd::string::*;
use crate::text::{
    decimal_text, decode_utf8_lossy, i64_text, padded_text, signed_text, text_of, u64_text,
    utf8_lossy, zero_padded,
};

verus! {

/// A cell as the client/server engine hands it out.
#[derive(Debug, Clone)]
pub enum MySqlCell {
    Null,
    Bytes(Vec<u8>),
    Int(i64),
    UInt(u64),
    /// A single or double precision number, as its decimal text.
    Real(String),
    Date { year: u16, month: u8, day: u8, hour: u8, minute: u8, second: u8, micros: u32 },
    Time { negative: bool, days: u32, hours: u8, minutes: u8, seconds: u8, micros: u32 },
}

/// A cell as the embedded engine hands it out.
#[derive(Debug, Clone)]
pub enum SqliteCell {
    Null,
    Integer(i64),
    /// A floating-point number, as its decimal text.
    Real(String),
    Text(String),
    Blob(Vec<u8>),
}

/// Hours, minutes and seconds, two digits each, separated by colons.
pub open spec fn clock_text(hour: nat, minute: nat, second: nat) -> Seq<char> {
    zero_padded(hour, 2) + ":"@ + zero_padded(minute, 2) + ":"@ + zero_padded(second, 2)
}

/// A point in time as `YYYY-MM-DD HH:MM:SS`.
pub open spec fn date_text(
    year: nat,
    month: nat,
    day: nat,
    hour: nat,
    minute: nat,
    second: nat,
) -> Seq<char> {
    zero_padded(year, 4) + "-"@ + zero_padded(month, 2) + "-"@ + zero_padded(day, 2) + " "@
        + clock_text(hour, minute, second)
}

/// A duration as `D.HH:MM:SS`, with `-` before a negative one.
pub open spec fn time_text(
    negative: bool,
    days: nat,
    hours: nat,
    minutes: nat,
    seconds: nat,
) -> Seq<char> {
    (if negative {
        "-"@
    } else {
        Seq::<char>::empty()
    }) + decimal_text(days) + "."@ + clock_text(hours, minutes, seconds)
}

/// Appends hours, minutes and seconds.
fn push_clock(out: &mut String, hour: u8, minute: u8, second: u8)
    ensures
        final(out)@ == old(out)@ + clock_text(hour as nat, minute as nat, second as nat),
{
    let ghost before = out@;
    let h = padded_text(hour as u64, 2);
    let m = padded_text(minute as u64, 2);
    let s = padded_text(second as u64, 2);
    out.append(h.as_str());
    out.append(":");
    out.append(m.as_str());
    out.append(":");
    out.append(s.as_str());
    assert(out@ =~= before + clock_text(hour as nat, minute as nat, second as nat));
}

/// The mathematical value of a [`MySqlCell`].
pub ghost enum MySqlCellView {
    Null,
    Bytes(Seq<u8>),
    Int(int),
    UInt(nat),
    Real(Seq<char>),
    Date { year: nat, month: nat, day: nat, hour: nat, minute: nat, second: nat, micros: nat },
    Time { negative: bool, days: nat, hours: nat, minutes: nat, seconds: nat, micros: nat },
}

impl View for MySqlCell {
    type V = MySqlCellView;

    open spec fn view(&self) -> MySqlCellView {
        match *self {
            MySqlCell::Null => MySqlCellView::Null,
            MySqlCell::Bytes(b) => MySqlCellView::Bytes(b@),
            MySqlCell::Int(n) => MySqlCellView::Int(n as int),
            MySqlCell::UInt(n) => MySqlCellView::UInt(n as nat),
            MySqlCell::Real(s) => MySqlCellView::Real(s@),
            MySqlCell::Date { year, month, day, hour, minute, second, micros } => {
                MySqlCellView::Date {
                    year: year as nat,
                    month: month as nat,
                    day: day as nat,
                    hour: hour as nat,
                    minute: minute as nat,
                    second: second as nat,
                    micros: micros as nat,
                }
            },
            MySqlCell::Time { negative, days, hours, minutes, seconds, micros } => {
                MySqlCellView::Time {
                    negative,
                    days: days as nat,
                    hours: hours as nat,
                    minutes: minutes as nat,
                    seconds: seconds as nat,
                    micros: micros as nat,
                }
            },
        }
    }
}

impl MySqlCellView {
    /// The uniform text of the cell. The fraction of a second is not shown.
    pub open spec fn normalized(self) -> Option<Seq<char>> {
        match self {
            MySqlCellView::Null => None,
            MySqlCellView::Bytes(b) => Some(utf8_lossy(b)),
            MySqlCellView::Int(n) => Some(signed_text(n)),
            MySqlCellView::UInt(n) => Some(decimal_text(n)),
            MySqlCellView::Real(s) => Some(s),
            MySqlCellView::Date { year, month, day, hour, minute, second, micros } => Some(
                date_text(year, month, day, hour, minute, second),
            ),
            MySqlCellView::Time { negative, days, hours, minutes, seconds, micros } => Some(
                time_text(negative, days, hours, minutes, seconds),
            ),
        }
    }
}

impl MySqlCell {
    /// Writes the cell as optional text.
    pub fn convert_value(&self) -> (r: Option<String>)
        ensures
            text_of(r) == self@.normalized(),
    {
        match self {
            MySqlCell::Null => None,
            MySqlCell::Bytes(b) => Some(decode_utf8_lossy(b)),
            MySqlCell::Int(n) => Some(i64_text(*n)),
            MySqlCell::UInt(n) => Some(u64_text(*n)),
            MySqlCell::Real(s) => Some(s.clone()),
            MySqlCell::Date { year, month, day, hour, minute, second, micros } => {
                let mut out = padded_text(*year as u64, 4);
                let m = padded_text(*month as u64, 2);
                let d = padded_text(*day as u64, 2);
                out.append("-");
                out.append(m.as_str());
                out.append("-");
                out.append(d.as_str());
                out.append(" ");
                push_clock(&mut out, *hour, *minute, *second);
                assert(out@ =~= date_text(
                    *year as nat,
                    *month as nat,
                    *day as nat,
                    *hour as nat,
                    *minute as nat,
                    *second as nat,
                ));
                Some(out)
            },
            MySqlCell::Time { negative, days, hours, minutes, seconds, micros } => {
                let mut out = String::new();
                if *negative {
                    out.append("-");
                }
                let d = u64_text(*days as u64);
                out.append(d.as_str());
                out.append(".");
                push_clock(&mut out, *hours, *minutes, *seconds);
                assert(out@ =~= time_text(
                    *negative,
                    *days as nat,
                    *hours as nat,
                    *minutes as nat,
                    *seconds as nat,
                ));
                Some(out)
            },
        }
    }
}

/// The mathematical value of a [`SqliteCell`].
pub ghost enum SqliteCellView {
    Null,
    Integer(int),
    Real(Seq<char>),
    Text(Seq<char>),
    Blob(Seq<u8>),
}

impl View for SqliteCell {
    type V = SqliteCellView;

    open spec fn view(&self) -> SqliteCellView {
        match *self {
            SqliteCell::Null => SqliteCellView::Null,
            SqliteCell::Integer(n) => SqliteCellView::Integer(n as int),
            SqliteCell::Real(s) => SqliteCellView::Real(s@),
            SqliteCell::Text(s) => SqliteCellView::Text(s@),
            SqliteCell::Blob(b) => SqliteCellView::Blob(b@),
        }
    }
}

impl SqliteCellView {
    /// The uniform text of the cell.
    pub open spec fn normalized(self) -> Option<Seq<char>> {
        match self {
            SqliteCellView::Null => None,
            SqliteCellView::Integer(n) => Some(signed_text(n)),
            SqliteCellView::Real(s) => Some(s),
            SqliteCellView::Text(s) => Some(s),
            SqliteCellView::Blob(b) => Some(utf8_lossy(b)),
        }
    }
}

impl SqliteCell {
    /// Writes the cell as optional text.
    pub fn convert_value(&self) -> (r: Option<String>)
        ensures
            text_of(r) == self@.normalized(),
    {
        match self {
            SqliteCell::Null => None,
            SqliteCell::Integer(n) => Some(i64_text(*n)),
            SqliteCell::Real(s) => Some(s.clone()),
            SqliteCell::Text(s) => Some(s.clone()),
            SqliteCell::Blob(b) => Some(decode_utf8_lossy(b)),
        }
    }
}

/// A cell of an engine: a value with a uniform text.
pub trait Cell {
    /// The uniform text of the cell.
    spec fn text(&self) -> Option<Seq<char>>;

    /// Writes the cell as optional text.
    fn to_text(&self) -> (r: Option<String>)
        ensures
            text_of(r) == self.text(),
    ;
}

impl Cell for MySqlCell {
    open spec fn text(&self) -> Option<Seq<char>> {
        self@.normalized()
    }

    fn to_text(&self) -> (r: Option<String>) {
        self.convert_value()
    }
}

impl Cell for SqliteCell {
    open spec fn text(&self) -> Option<Seq<char>> {
        self@.normalized()
    }

    fn to_text(&self) -> (r: Option<String>) {
        self.convert_value()
    }
}

/// The cell that the embedded engine holds once a bound value is written: a
/// text cell for a text, an empty cell for no value.
pub open spec fn sqlite_written(bound: Option<Seq<char>>) -> SqliteCellView {
    match bound {
        Some(x) => SqliteCellView::Text(x),
        None => SqliteCellView::Null,
    }
}

/// The cell that the client/server engine holds once a bound value is
/// written: the bytes that encode the text, or an empty cell for no value.
pub open spec fn mysql_written(bound: Option<Seq<char>>) -> MySqlCellView {
    match bound {
        Some(x) => MySqlCellView::Bytes(vstd::utf8::encode_utf8(x)),
        None => MySqlCellView::Null,
    }
}

/// What is written reads back: the uniform text of the cell that holds a
/// bound value is that value, in either engine.
pub proof fn lemma_written_value_reads_back(bound: Option<Seq<char>>)
    ensures
        sqlite_written(bound).normalized() == bound,
        mysql_written(bound).normalized() == bound,
{
    if let Some(x) = bound {
        vstd::utf8::encode_utf8_valid_utf8(x);
        vstd::utf8::encode_utf8_decode_utf8(x);
    }
}

} // verus!
