//! Daily log files: their names, which of them are old enough to delete
//! (only today's and yesterday's are kept, for audit), and the line format.
use crate::text::{str_eq, chars_of, string_from_chars};
use std::fmt::Write;
use vstd::prelude::*;

verus! {

/// The day number (days from the common era, as chrono counts them) of the
/// date chrono parses from `text` with the format `fmt`, when it parses.
pub uninterp spec fn chrono_day_number(text: Seq<char>, fmt: Seq<char>) -> Option<i32>;

/// Calls `chrono::NaiveDate::parse_from_str(text, fmt)` and takes the parsed
/// date's `num_days_from_ce`. Claimed: the result is a function of the text
/// and the format alone. Which texts parse, and to which day, is left unsaid.
#[verifier::external_body]
fn parse_date(text: &str, fmt: &str) -> (d: Option<i32>)
    ensures
        d == chrono_day_number(text@, fmt@),
{
    chrono::NaiveDate::parse_from_str(text, fmt).ok().map(|d| chrono::Datelike::num_days_from_ce(&d))
}

/// The text chrono writes for the day number `day` with the format `fmt`,
/// when chrono can represent that day and the format suits a date.
pub uninterp spec fn chrono_day_text(day: i32, fmt: Seq<char>) -> Option<Seq<char>>;

/// Calls `chrono::NaiveDate::from_num_days_from_ce_opt(day)` and writes the
/// date with `format(fmt)`; a format that cannot be written gives `None`.
/// Claimed: the result is a function of the day and the format alone. The
/// calendar arithmetic is left unsaid.
#[verifier::external_body]
fn format_date(day: i32, fmt: &str) -> (t: Option<String>)
    ensures
        match t {
            Some(s) => chrono_day_text(day, fmt@) == Some(s@),
            None => chrono_day_text(day, fmt@) is None,
        },
{
    let d = chrono::NaiveDate::from_num_days_from_ce_opt(day)?;
    let mut s = String::new();
    write!(s, "{}", d.format(fmt)).ok()?;
    Some(s)
}

/// The day number of a date written "YYYY-MM-DD", when it is a valid date.
pub open spec fn ymd_day_number(text: Seq<char>) -> Option<i32> {
    chrono_day_number(text, "%Y-%m-%d"@)
}

/// The "YYYY-MM-DD" text of a day number, when chrono can represent that day.
pub open spec fn day_text(day: i32) -> Option<Seq<char>> {
    chrono_day_text(day, "%Y-%m-%d"@)
}

/// The log file of a day: "backup-" + date + ".log".
pub open spec fn log_name_spec(date: Seq<char>) -> Seq<char> {
    "backup-"@ + date + ".log"@
}

/// The name of the log file for a date written "YYYY-MM-DD".
pub fn log_file_name(date: &str) -> (n: String)
    ensures
        n@ == log_name_spec(date@),
{
    let mut n = "backup-".to_owned();
    n.append(date);
    n.append(".log");
    n
}

/// The date part of a log file name, if the name has the log file form.
pub open spec fn log_date_spec(name: Seq<char>) -> Option<Seq<char>> {
    if name.len() >= 11 && name.take(7) == "backup-"@ && name.skip(name.len() - 4) == ".log"@ {
        Some(name.subrange(7, name.len() - 4))
    } else {
        None
    }
}

/// The date part of a file name "backup-<date>.log", if it has that form.
pub fn log_date_part(name: &str) -> (d: Option<String>)
    ensures
        match d {
            Some(s) => log_date_spec(name@) == Some(s@),
            None => log_date_spec(name@) is None,
        },
{
    proof {
        reveal_strlit("backup-");
        reveal_strlit(".log");
    }
    let c = chars_of(name);
    let n = c.len();
    if n < 11 {
        return None;
    }
    let head = string_from_chars(&c, 7);
    if !str_eq(head.as_str(), "backup-") {
        return None;
    }
    let mut tail = String::new();
    let mut i: usize = n - 4;
    while i < n
        invariant
            n == c@.len(),
            n >= 11,
            n - 4 <= i <= n,
            tail@ == c@.subrange(n - 4, i as int),
        decreases n - i,
    {
        tail.push(c[i]);
        proof {
            assert(c@.subrange(n - 4, i + 1) =~= c@.subrange(n - 4, i as int).push(c@[i as int]));
        }
        i = i + 1;
    }
    proof {
        assert(c@.skip(n - 4) =~= c@.subrange(n - 4, n as int));
    }
    if !str_eq(tail.as_str(), ".log") {
        return None;
    }
    let mut mid = String::new();
    let mut j: usize = 7;
    while j < n - 4
        invariant
            n == c@.len(),
            n >= 11,
            7 <= j <= n - 4,
            mid@ == c@.subrange(7, j as int),
        decreases n - 4 - j,
    {
        mid.push(c[j]);
        proof {
            assert(c@.subrange(7, j + 1) =~= c@.subrange(7, j as int).push(c@[j as int]));
        }
        j = j + 1;
    }
    Some(mid)
}

/// Whether the log file `name` is older than yesterday, `today` being the day
/// number of the current date: only files of the log form whose date parses
/// are considered.
pub fn is_expired_log(name: &str, today: i32) -> (b: bool)
    ensures
        b == (match log_date_spec(name@) {
            Some(d) => match ymd_day_number(d) {
                Some(day) => today - day > 1,
                None => false,
            },
            None => false,
        }),
{
    match log_date_part(name) {
        Some(d) => match parse_date(d.as_str(), "%Y-%m-%d") {
            Some(day) => (today as i64) - (day as i64) > 1,
            None => false,
        },
        None => false,
    }
}

/// The log files to read for the recent log, oldest first: yesterday's, then
/// today's (a day that chrono cannot represent is left out).
pub open spec fn recent_names_spec(today: i32) -> Seq<Seq<char>> {
    let y = if today > i32::MIN && day_text((today - 1) as i32) is Some {
        seq![log_name_spec(day_text((today - 1) as i32)->0)]
    } else {
        Seq::empty()
    };
    let t = if day_text(today) is Some {
        seq![log_name_spec(day_text(today)->0)]
    } else {
        Seq::empty()
    };
    y + t
}

/// The log files of yesterday and today, in that order.
pub fn recent_log_names(today: i32) -> (names: Vec<String>)
    ensures
        names@.map_values(|s: String| s@) == recent_names_spec(today),
{
    let mut names: Vec<String> = Vec::new();
    if today > i32::MIN {
        if let Some(t) = format_date(today - 1, "%Y-%m-%d") {
            names.push(log_file_name(t.as_str()));
        }
    }
    let ghost first = names@.map_values(|s: String| s@);
    if let Some(t) = format_date(today, "%Y-%m-%d") {
        names.push(log_file_name(t.as_str()));
    }
    proof {
        assert(names@.map_values(|s: String| s@) =~= recent_names_spec(today));
    }
    names
}

/// `level` padded with spaces on the right to at least five characters.
pub open spec fn pad5(level: Seq<char>) -> Seq<char> {
    if level.len() >= 5 {
        level
    } else {
        level + Seq::new((5 - level.len()) as nat, |i: int| ' ')
    }
}

/// A log line: "[time] LEVEL message", the level padded to five characters.
pub fn log_line(time: &str, level: &str, msg: &str) -> (line: String)
    ensures
        line@ == "["@ + time@ + "] "@ + pad5(level@) + " "@ + msg@,
{
    let mut line = "[".to_owned();
    line.append(time);
    line.append("] ");
    line.append(level);
    let mut n = level.unicode_len();
    let ghost padded_from = line@;
    while n < 5
        invariant
            level@.len() <= n <= 5 || (n == level@.len() && n >= 5),
            line@ == padded_from + Seq::new((n - level@.len()) as nat, |i: int| ' '),
        decreases 5 - n,
    {
        line.push(' ');
        proof {
            assert(padded_from + Seq::new((n + 1 - level@.len()) as nat, |i: int| ' ') =~= (padded_from
                + Seq::new((n - level@.len()) as nat, |i: int| ' ')).push(' '));
        }
        n = n + 1;
    }
    proof {
        if level@.len() >= 5 {
            assert(Seq::new(0nat, |i: int| ' ') =~= Seq::<char>::empty());
            assert(line@ =~= padded_from);
        }
    }
    line.append(" ");
    line.append(msg);
    proof {
        assert(line@ =~= "["@ + time@ + "] "@ + pad5(level@) + " "@ + msg@);
    }
    line
}

} // verus!
