//! Values shown by the user interface: the sex filter of a search, saved
//! favourite searches, and the dates written next to them.

use chrono::{Datelike, NaiveDate, NaiveDateTime, Timelike};
use vstd::prelude::*;
use crate::datasources::str_eq_literal;
use crate::text::decimal;

verus! {

// ---------------------------------------------------------------------
// Sex filter
// ---------------------------------------------------------------------

/// The sex a search is restricted to; `U` leaves it open.
#[derive(Debug, Clone, Copy, PartialEq, Eq, Structural)]
pub enum Sexo {
    U,
    F,
    M,
}

impl Default for Sexo {
    fn default() -> (s: Self)
        ensures
            s == Sexo::U,
    {
        Sexo::U
    }
}

impl Sexo {
    /// The text stored in the database: `F`, `M` or `U`.
    pub open spec fn spec_sql_text(self) -> Seq<char> {
        match self {
            Sexo::F => "F"@,
            Sexo::M => "M"@,
            Sexo::U => "U"@,
        }
    }

    /// The value read from a text column: `F` and `M` are themselves,
    /// anything else is `U`.
    pub open spec fn spec_from_sql_text(text: Seq<char>) -> Sexo {
        if text == "F"@ {
            Sexo::F
        } else if text == "M"@ {
            Sexo::M
        } else {
            Sexo::U
        }
    }

    /// The text stored in the database: `F`, `M` or `U`.
    pub fn sql_text(&self) -> (r: &'static str)
        ensures
            r@ == self.spec_sql_text(),
    {
        match self {
            Sexo::F => "F",
            Sexo::M => "M",
            Sexo::U => "U",
        }
    }

    /// The value read from a text column: `F` and `M` are themselves,
    /// anything else is `U`.
    pub fn from_sql_text(text: &str) -> (s: Self)
        ensures
            s == Self::spec_from_sql_text(text@),
    {
        if str_eq_literal(text, "F") {
            Sexo::F
        } else if str_eq_literal(text, "M") {
            Sexo::M
        } else {
            Sexo::U
        }
    }

    /// How the value is shown: `No definido`, `F` or `M`.
    pub fn display_text(&self) -> (r: &'static str)
        ensures
            r@ == match self {
                Sexo::U => "No definido"@,
                Sexo::F => "F"@,
                Sexo::M => "M"@,
            },
    {
        match self {
            Sexo::U => "No definido",
            Sexo::F => "F",
            Sexo::M => "M",
        }
    }
}

/// A sex filter written to the database is read back as itself.
pub proof fn lemma_sexo_sql_round_trip(s: Sexo)
    ensures
        Sexo::spec_from_sql_text(s.spec_sql_text()) == s,
{
    reveal_strlit("F");
    reveal_strlit("M");
    reveal_strlit("U");
    assert("F"@[0] != "M"@[0]);
    assert("U"@[0] != "F"@[0]);
    assert("U"@[0] != "M"@[0]);
}

// ---------------------------------------------------------------------
// Dates
// ---------------------------------------------------------------------

/// A date and time of day, as the database stores it.
#[derive(Debug, Clone, Copy, PartialEq, Eq, Structural)]
pub struct Timestamp {
    pub year: i32,
    pub month: u32,
    pub day: u32,
    pub hour: u32,
    pub minute: u32,
    pub second: u32,
}

/// Whether `year` is a leap year of the Gregorian calendar.
pub open spec fn is_leap_year(year: int) -> bool {
    (year % 4 == 0 && year % 100 != 0) || year % 400 == 0
}

/// The number of days of `month` in `year`.
pub open spec fn days_in_month(year: int, month: int) -> int {
    if month == 2 {
        if is_leap_year(year) {
            29
        } else {
            28
        }
    } else if month == 4 || month == 6 || month == 9 || month == 11 {
        30
    } else {
        31
    }
}

impl Timestamp {
    /// A real date of the years that `chrono` handles, with a time of day
    /// whose seconds are below 60.
    pub open spec fn wf(&self) -> bool {
        &&& -262143 <= self.year <= 262142
        &&& 1 <= self.month <= 12
        &&& 1 <= self.day <= days_in_month(self.year as int, self.month as int)
        &&& self.hour < 24
        &&& self.minute < 60
        &&& self.second < 60
    }

    /// Midnight of 1 January 1970, the date `NaiveDateTime::default`
    /// stands for.
    pub fn epoch() -> (t: Self)
        ensures
            t == (Timestamp { year: 1970, month: 1, day: 1, hour: 0, minute: 0, second: 0 }),
            t.wf(),
    {
        Timestamp { year: 1970, month: 1, day: 1, hour: 0, minute: 0, second: 0 }
    }
}

/// What `chrono` reads as a date and time in `text` with the pattern
/// `%Y-%m-%d %H:%M:%S`, as (year, month, day, hour, minute, second).
pub uninterp spec fn db_timestamp_parse(text: Seq<char>) -> Option<(int, int, int, int, int, int)>;

/// The decimal digits `d` with `0`s before them up to `width` digits.
pub open spec fn zero_padded(d: Seq<char>, width: nat) -> Seq<char> {
    if d.len() < width {
        Seq::new((width - d.len()) as nat, |i: int| '0') + d
    } else {
        d
    }
}

/// How `%Y` writes a year: four digits at least, with a sign before the
/// years outside 0 to 9999.
pub open spec fn year_text(year: int) -> Seq<char> {
    if 0 <= year <= 9999 {
        zero_padded(decimal(year as nat), 4)
    } else if year < 0 {
        seq!['-'] + zero_padded(decimal((-year) as nat), 4)
    } else {
        seq!['+'] + zero_padded(decimal(year as nat), 4)
    }
}

/// How `%b` writes a month: its English name in three letters.
pub open spec fn month_abbrev(month: int) -> Seq<char> {
    if month == 1 {
        "Jan"@
    } else if month == 2 {
        "Feb"@
    } else if month == 3 {
        "Mar"@
    } else if month == 4 {
        "Apr"@
    } else if month == 5 {
        "May"@
    } else if month == 6 {
        "Jun"@
    } else if month == 7 {
        "Jul"@
    } else if month == 8 {
        "Aug"@
    } else if month == 9 {
        "Sep"@
    } else if month == 10 {
        "Oct"@
    } else if month == 11 {
        "Nov"@
    } else {
        "Dec"@
    }
}

/// What `chrono` writes for the date and time (year, month, day, hour,
/// minute, second) with the format `pattern`, one of the two the user
/// interface uses: `%b %d, %Y` (as `Dec 25, 2024`), or that followed by
/// ` %H:%M` (as `Dec 25, 2024 09:30`).
pub open spec fn timestamp_text(
    year: int,
    month: int,
    day: int,
    hour: int,
    minute: int,
    second: int,
    pattern: Seq<char>,
) -> Seq<char> {
    let date = month_abbrev(month) + " "@ + zero_padded(decimal(day as nat), 2) + ", "@ + year_text(
        year,
    );
    if pattern == "%b %d, %Y"@ {
        date
    } else {
        date + " "@ + zero_padded(decimal(hour as nat), 2) + ":"@ + zero_padded(
            decimal(minute as nat),
            2,
        )
    }
}

/// The parts of a timestamp.
pub open spec fn timestamp_parts(t: Timestamp) -> (int, int, int, int, int, int) {
    (t.year as int, t.month as int, t.day as int, t.hour as int, t.minute as int, t.second as int)
}

/// Calls `NaiveDateTime::parse_from_str(text, "%Y-%m-%d %H:%M:%S")` and
/// takes the parts of what it returns. What it accepts is named, not
/// restated. A `NaiveDateTime` always holds a real date of the years
/// `chrono` handles and a time whose seconds are below 60 (a leap second
/// is kept in the nanoseconds), so the parts are well formed.
#[verifier::external_body]
fn parse_db_timestamp(text: &str) -> (r: Option<Timestamp>)
    ensures
        match r {
            Some(t) => db_timestamp_parse(text@) == Some(timestamp_parts(t)) && t.wf(),
            None => db_timestamp_parse(text@) is None,
        },
{
    NaiveDateTime::parse_from_str(text, "%Y-%m-%d %H:%M:%S").ok().map(|d| Timestamp {
        year: d.year(),
        month: d.month(),
        day: d.day(),
        hour: d.hour(),
        minute: d.minute(),
        second: d.second(),
    })
}

/// The date and time stored as `text`, or midnight of 1 January 1970 when
/// it cannot be read.
pub fn timestamp_from_db(text: &str) -> (t: Timestamp)
    ensures
        t.wf(),
        match db_timestamp_parse(text@) {
            Some(p) => timestamp_parts(t) == p,
            None => t == (Timestamp { year: 1970, month: 1, day: 1, hour: 0, minute: 0, second: 0 }),
        },
{
    match parse_db_timestamp(text) {
        Some(t) => t,
        None => Timestamp::epoch(),
    }
}

/// The day of `t` as a favourite shows it (`%b %d, %Y`, e.g. `Mar 05, 2024`).
pub fn day_text(t: &Timestamp) -> (r: String)
    requires
        t.wf(),
    ensures
        r@ == timestamp_text(
            t.year as int,
            t.month as int,
            t.day as int,
            t.hour as int,
            t.minute as int,
            t.second as int,
            "%b %d, %Y"@,
        ),
{
    format_timestamp(t, "%b %d, %Y")
}

/// The day and time of `t` (`%b %d, %Y %H:%M`).
pub fn day_time_text(t: &Timestamp) -> (r: String)
    requires
        t.wf(),
    ensures
        r@ == timestamp_text(
            t.year as int,
            t.month as int,
            t.day as int,
            t.hour as int,
            t.minute as int,
            t.second as int,
            "%b %d, %Y %H:%M"@,
        ),
{
    format_timestamp(t, "%b %d, %Y %H:%M")
}

/// Calls `NaiveDateTime::format(pattern)` on the date and time `t`, and
/// writes the result to a `String`, as `timestamp_text` states. Only
/// the two patterns the user interface writes are accepted: a pattern that
/// chrono cannot format makes the writing to a `String` panic.
#[verifier::external_body]
fn format_timestamp(t: &Timestamp, pattern: &str) -> (r: String)
    requires
        t.wf(),
        pattern@ == "%b %d, %Y"@ || pattern@ == "%b %d, %Y %H:%M"@,
    ensures
        r@ == timestamp_text(
            t.year as int,
            t.month as int,
            t.day as int,
            t.hour as int,
            t.minute as int,
            t.second as int,
            pattern@,
        ),
{
    let d = NaiveDate::from_ymd_opt(t.year, t.month, t.day).and_then(
        |d| d.and_hms_opt(t.hour, t.minute, t.second),
    ).unwrap();
    d.format(pattern).to_string()
}

// ---------------------------------------------------------------------
// Favourites
// ---------------------------------------------------------------------

/// A saved search, as the user interface lists it: its searches and the
/// strategy of each, and the day it was saved.
#[derive(Debug, Clone)]
pub struct Resultados {
    pub id: u64,
    pub nombre: String,
    pub data: String,
    pub tipos: Vec<String>,
    pub fecha: String,
    pub busquedas: Vec<String>,
}

impl Resultados {
    /// The entry saved on `fecha`, whose day is written `%b %d, %Y`.
    pub fn new(
        id: u64,
        nombre: String,
        data: String,
        tipos: Vec<String>,
        fecha: Timestamp,
        busquedas: Vec<String>,
    ) -> (r: Self)
        requires
            fecha.wf(),
        ensures
            r.id == id,
            r.nombre == nombre,
            r.data == data,
            r.tipos == tipos,
            r.busquedas == busquedas,
            r.fecha@ == timestamp_text(
                fecha.year as int,
                fecha.month as int,
                fecha.day as int,
                fecha.hour as int,
                fecha.minute as int,
                fecha.second as int,
                "%b %d, %Y"@,
            ),
    {
        let fecha = day_text(&fecha);
        Resultados { id, nombre, data, tipos, fecha, busquedas }
    }
}

/// The saved searches of a document.
#[derive(Debug, Clone)]
pub struct Favoritos {
    pub favoritos: Vec<Resultados>,
}

} // verus!
