use chrono::{DateTime, Datelike, Timelike, Utc};
use vstd::prelude::*;
use vstd::string::StringExecFns;

verus! {

/// Calendar fields of a point in Coordinated Universal Time.
/// `weekday` counts days from Sunday (Sunday is 0).
#[derive(Clone, Copy, Debug, PartialEq, Eq, Structural)]
pub struct CivilTime {
    pub year: i32,
    pub month: u32,
    pub day: u32,
    pub hour: u32,
    pub minute: u32,
    pub second: u32,
    pub weekday: u32,
}

/// The year of a Unix timestamp, as chrono's `Datelike::year` gives it.
pub uninterp spec fn utc_year_of(unix_seconds: int) -> int;

/// The month (1 to 12) of a Unix timestamp, as chrono's `Datelike::month` gives it.
pub uninterp spec fn utc_month_of(unix_seconds: int) -> int;

/// The day of month (1 to 31) of a Unix timestamp, as chrono's `Datelike::day` gives it.
pub uninterp spec fn utc_day_of(unix_seconds: int) -> int;

/// The calendar fields of a Unix timestamp: the date as chrono computes it, the time of day and
/// the weekday counted from the timestamp (1970-01-01 was a Thursday).
pub open spec fn utc_civil(unix_seconds: int) -> CivilTime {
    CivilTime {
        year: utc_year_of(unix_seconds) as i32,
        month: utc_month_of(unix_seconds) as u32,
        day: utc_day_of(unix_seconds) as u32,
        hour: ((unix_seconds % 86400) / 3600) as u32,
        minute: ((unix_seconds % 3600) / 60) as u32,
        second: (unix_seconds % 60) as u32,
        weekday: ((unix_seconds / 86400 + 4) % 7) as u32,
    }
}

impl CivilTime {
    /// The weekday and month are ones that have a name.
    pub open spec fn has_names(self) -> bool {
        &&& self.weekday < 7
        &&& 1 <= self.month <= 12
    }
}

/// Relies on chrono's `DateTime::<Utc>::from_timestamp`, which is `Some` for every second count
/// from 0 to `u32::MAX` (its day count stays far inside the supported years), and on chrono's
/// `Datelike` (`year`, `month` from 1 to 12, `day` from 1 to 31, `weekday`) and `Timelike`
/// (`hour`, `minute`, `second`) to read the fields of that point in time.
#[verifier::external_body]
fn utc_fields(unix_seconds: i64) -> (r: CivilTime)
    requires
        0 <= unix_seconds <= u32::MAX,
    ensures
        r.year as int == utc_year_of(unix_seconds as int),
        r.month as int == utc_month_of(unix_seconds as int),
        r.day as int == utc_day_of(unix_seconds as int),
        r.hour as int == (unix_seconds % 86400) / 3600,
        r.minute as int == (unix_seconds % 3600) / 60,
        r.second as int == unix_seconds % 60,
        r.weekday as int == (unix_seconds / 86400 + 4) % 7,
        1 <= r.month <= 12,
        1 <= r.day <= 31,
{
    let dt = DateTime::<Utc>::from_timestamp(unix_seconds, 0).unwrap();
    CivilTime {
        year: dt.year(),
        month: dt.month(),
        day: dt.day(),
        hour: dt.hour(),
        minute: dt.minute(),
        second: dt.second(),
        weekday: dt.weekday().num_days_from_sunday(),
    }
}

/// Calendar fields of a Unix timestamp in Coordinated Universal Time.
pub fn civil_time_of(unix_seconds: u32) -> (r: CivilTime)
    ensures
        r == utc_civil(unix_seconds as int),
        r.has_names(),
        1 <= r.day <= 31,
{
    utc_fields(unix_seconds as i64)
}

/// Abbreviated weekday names, Sunday first.
pub open spec fn weekday_name(w: int) -> Seq<char> {
    if w == 0 {
        seq!['D', 'o', 'm']
    } else if w == 1 {
        seq!['S', 'e', 'g']
    } else if w == 2 {
        seq!['T', 'e', 'r']
    } else if w == 3 {
        seq!['Q', 'u', 'a']
    } else if w == 4 {
        seq!['Q', 'u', 'i']
    } else if w == 5 {
        seq!['S', 'e', 'x']
    } else {
        seq!['S', 'á', 'b']
    }
}

/// Abbreviated month names, January being month 1.
pub open spec fn month_name(m: int) -> Seq<char> {
    if m == 1 {
        seq!['J', 'a', 'n']
    } else if m == 2 {
        seq!['F', 'e', 'v']
    } else if m == 3 {
        seq!['M', 'a', 'r']
    } else if m == 4 {
        seq!['A', 'b', 'r']
    } else if m == 5 {
        seq!['M', 'a', 'i']
    } else if m == 6 {
        seq!['J', 'u', 'n']
    } else if m == 7 {
        seq!['J', 'u', 'l']
    } else if m == 8 {
        seq!['A', 'g', 'o']
    } else if m == 9 {
        seq!['S', 'e', 't']
    } else if m == 10 {
        seq!['O', 'u', 't']
    } else if m == 11 {
        seq!['N', 'o', 'v']
    } else {
        seq!['D', 'e', 'z']
    }
}

/// The decimal digit `d`.
pub open spec fn digit_char(d: int) -> char {
    seq!['0', '1', '2', '3', '4', '5', '6', '7', '8', '9'][d]
}

/// Decimal digits of a natural number, most significant first, without leading zeros.
pub open spec fn decimal(n: nat) -> Seq<char>
    decreases n,
{
    if n < 10 {
        seq![digit_char(n as int)]
    } else {
        decimal(n / 10).push(digit_char((n % 10) as int))
    }
}

/// Decimal form of an integer, with a leading minus sign when it is negative.
pub open spec fn signed_decimal(n: int) -> Seq<char> {
    if n < 0 {
        seq!['-'] + decimal((-n) as nat)
    } else {
        decimal(n as nat)
    }
}

/// Decimal digits padded with a leading zero to at least two.
pub open spec fn two_digits(n: nat) -> Seq<char> {
    if n < 10 {
        seq!['0'] + decimal(n)
    } else {
        decimal(n)
    }
}

/// The rendering `<Dow> <Mon> <DD> <HH>:<MM>:<SS> <YYYY>`.
pub open spec fn render(t: CivilTime) -> Seq<char> {
    weekday_name(t.weekday as int) + seq![' '] + month_name(t.month as int) + seq![' ']
        + two_digits(t.day as nat) + seq![' '] + two_digits(t.hour as nat) + seq![':']
        + two_digits(t.minute as nat) + seq![':'] + two_digits(t.second as nat) + seq![' ']
        + signed_decimal(t.year as int)
}

fn digit_str(d: u64) -> (r: &'static str)
    requires
        d < 10,
    ensures
        r@ == seq![digit_char(d as int)],
{
    proof {
        reveal_strlit("0");
        reveal_strlit("1");
        reveal_strlit("2");
        reveal_strlit("3");
        reveal_strlit("4");
        reveal_strlit("5");
        reveal_strlit("6");
        reveal_strlit("7");
        reveal_strlit("8");
        reveal_strlit("9");
    }
    match d {
        0 => "0",
        1 => "1",
        2 => "2",
        3 => "3",
        4 => "4",
        5 => "5",
        6 => "6",
        7 => "7",
        8 => "8",
        _ => "9",
    }
}

/// Appends the decimal digits of `n`.
fn push_decimal(out: &mut String, n: u64)
    ensures
        final(out)@ == old(out)@ + decimal(n as nat),
    decreases n,
{
    if n >= 10 {
        push_decimal(out, n / 10);
    }
    out.append(digit_str(n % 10));
    assert(out@ =~= old(out)@ + decimal(n as nat));
}

/// Appends `n` padded with a leading zero to at least two digits.
fn push_two_digits(out: &mut String, n: u32)
    ensures
        final(out)@ == old(out)@ + two_digits(n as nat),
{
    if n < 10 {
        proof {
            reveal_strlit("0");
        }
        out.append("0");
    }
    push_decimal(out, n as u64);
    assert(out@ =~= old(out)@ + two_digits(n as nat));
}

fn weekday_str(w: u32) -> (r: &'static str)
    requires
        w < 7,
    ensures
        r@ == weekday_name(w as int),
{
    proof {
        reveal_strlit("Dom");
        reveal_strlit("Seg");
        reveal_strlit("Ter");
        reveal_strlit("Qua");
        reveal_strlit("Qui");
        reveal_strlit("Sex");
        reveal_strlit("Sáb");
    }
    match w {
        0 => "Dom",
        1 => "Seg",
        2 => "Ter",
        3 => "Qua",
        4 => "Qui",
        5 => "Sex",
        _ => "Sáb",
    }
}

fn month_str(m: u32) -> (r: &'static str)
    requires
        1 <= m <= 12,
    ensures
        r@ == month_name(m as int),
{
    proof {
        reveal_strlit("Jan");
        reveal_strlit("Fev");
        reveal_strlit("Mar");
        reveal_strlit("Abr");
        reveal_strlit("Mai");
        reveal_strlit("Jun");
        reveal_strlit("Jul");
        reveal_strlit("Ago");
        reveal_strlit("Set");
        reveal_strlit("Out");
        reveal_strlit("Nov");
        reveal_strlit("Dez");
    }
    match m {
        1 => "Jan",
        2 => "Fev",
        3 => "Mar",
        4 => "Abr",
        5 => "Mai",
        6 => "Jun",
        7 => "Jul",
        8 => "Ago",
        9 => "Set",
        10 => "Out",
        11 => "Nov",
        _ => "Dez",
    }
}

/// Renders calendar fields as `<Dow> <Mon> <DD> <HH>:<MM>:<SS> <YYYY>`, with Portuguese
/// abbreviations for the weekday and the month and zero-padded two-digit fields.
pub fn format_date_in_portuguese(t: &CivilTime) -> (r: String)
    requires
        t.has_names(),
    ensures
        r@ == render(*t),
{
    proof {
        reveal_strlit(" ");
        reveal_strlit(":");
        reveal_strlit("-");
    }
    let mut out = String::new();
    out.append(weekday_str(t.weekday));
    out.append(" ");
    out.append(month_str(t.month));
    out.append(" ");
    push_two_digits(&mut out, t.day);
    out.append(" ");
    push_two_digits(&mut out, t.hour);
    out.append(":");
    push_two_digits(&mut out, t.minute);
    out.append(":");
    push_two_digits(&mut out, t.second);
    out.append(" ");
    if t.year < 0 {
        out.append("-");
        push_decimal(&mut out, (0i64 - t.year as i64) as u64);
    } else {
        push_decimal(&mut out, t.year as u64);
    }
    assert(out@ =~= render(*t));
    out
}

} // verus!
