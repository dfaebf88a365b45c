use chrono::Datelike;
use vstd::prelude::*;

verus! {

/// 9999-12-31T23:59:59Z as seconds since the Unix epoch.
pub const LAST_SECOND_OF_9999: i64 = 253_402_300_799;

/// The UTC calendar date (year, month, day) of a second since the Unix epoch,
/// as chrono computes it.
pub uninterp spec fn utc_calendar_date(secs: i64) -> (int, int, int);

/// Relies on chrono's `DateTime::<Utc>::from_timestamp` (`None` only where the
/// second lies outside chrono's range of dates, which reaches past the year
/// 9999) and on `Datelike` for the fields: a month from 1 to 12 and a day from
/// 1 to 31.
#[verifier::external_body]
fn utc_date(secs: i64) -> (r: Option<(i32, u32, u32)>)
    ensures
        0 <= secs <= LAST_SECOND_OF_9999 ==> r is Some,
        r matches Some(d) ==> (d.0 as int, d.1 as int, d.2 as int) == utc_calendar_date(secs)
            && 1 <= d.1 <= 12 && 1 <= d.2 <= 31,
{
    match chrono::DateTime::<chrono::Utc>::from_timestamp(secs, 0) {
        Some(t) => Some((t.year(), t.month(), t.day())),
        None => None,
    }
}

pub open spec fn digit_char(d: nat) -> char {
    if d == 0 {
        '0'
    } else if d == 1 {
        '1'
    } else if d == 2 {
        '2'
    } else if d == 3 {
        '3'
    } else if d == 4 {
        '4'
    } else if d == 5 {
        '5'
    } else if d == 6 {
        '6'
    } else if d == 7 {
        '7'
    } else if d == 8 {
        '8'
    } else {
        '9'
    }
}

/// The decimal digits of `n`, without leading zeros.
pub open spec fn decimal(n: nat) -> Seq<char>
    decreases n,
{
    if n < 10 {
        seq![digit_char(n)]
    } else {
        decimal(n / 10).push(digit_char(n % 10))
    }
}

/// The decimal digits of `n`, with zeros in front up to `width` characters.
pub open spec fn padded(n: nat, width: nat) -> Seq<char> {
    let d = decimal(n);
    if d.len() >= width {
        d
    } else {
        Seq::new((width - d.len()) as nat, |i: int| '0') + d
    }
}

/// A year as four digits or more; outside 0 to 9999 it carries a sign.
pub open spec fn year_text(year: int) -> Seq<char> {
    if 0 <= year <= 9999 {
        padded(year as nat, 4)
    } else if year > 9999 {
        seq!['+'] + padded(year as nat, 4)
    } else {
        seq!['-'] + padded((-year) as nat, 4)
    }
}

/// The folder name of a date: year, month and day joined by underscores,
/// month and day in two digits.
pub open spec fn bucket_text(year: int, month: int, day: int) -> Seq<char> {
    year_text(year) + seq!['_'] + padded(month as nat, 2) + seq!['_'] + padded(day as nat, 2)
}

/// The folder name of a (year, month, day) triple.
pub open spec fn bucket_of_date(date: (int, int, int)) -> Seq<char> {
    bucket_text(date.0, date.1, date.2)
}

fn digit_str(d: u64) -> (r: &'static str)
    requires
        d < 10,
    ensures
        r@ == seq![digit_char(d as nat)],
{
    proof {
        reveal_strlit("0");
        reveal_strlit("1");
        reveal_strlit("2");
        reveal_strlit("3");
        reveal_strlit("4");
        reveal_strlit("5");
        reveal_strlit("6");
        reveal_strlit("7");
        reveal_strlit("8");
        reveal_strlit("9");
    }
    let r = if d == 0 {
        "0"
    } else if d == 1 {
        "1"
    } else if d == 2 {
        "2"
    } else if d == 3 {
        "3"
    } else if d == 4 {
        "4"
    } else if d == 5 {
        "5"
    } else if d == 6 {
        "6"
    } else if d == 7 {
        "7"
    } else if d == 8 {
        "8"
    } else {
        "9"
    };
    assert(r@ =~= seq![digit_char(d as nat)]);
    r
}

fn digit_count(n: u64) -> (r: u64)
    ensures
        r == decimal(n as nat).len(),
        r <= n as int + 1,
    decreases n,
{
    if n < 10 {
        1
    } else {
        let r = 1 + digit_count(n / 10);
        assert(decimal(n as nat) == decimal((n / 10) as nat).push(digit_char((n % 10) as nat)));
        r
    }
}

fn append_decimal(s: &mut String, n: u64)
    ensures
        final(s)@ == old(s)@ + decimal(n as nat),
    decreases n,
{
    if n >= 10 {
        append_decimal(s, n / 10);
    }
    s.append(digit_str(n % 10));
    assert(final(s)@ =~= old(s)@ + decimal(n as nat));
}

fn append_padded(s: &mut String, n: u64, width: usize)
    ensures
        final(s)@ == old(s)@ + padded(n as nat, width as nat),
{
    let len = digit_count(n);
    if len < width as u64 {
        let zeros: usize = width - len as usize;
        let mut i: usize = 0;
        while i < zeros
            invariant
                i <= zeros,
                s@ == old(s)@ + Seq::new(i as nat, |k: int| '0'),
            decreases zeros - i,
        {
            s.append("0");
            proof {
                reveal_strlit("0");
            }
            assert(s@ =~= old(s)@ + Seq::new((i + 1) as nat, |k: int| '0'));
            i = i + 1;
        }
    }
    append_decimal(s, n);
    assert(final(s)@ =~= old(s)@ + padded(n as nat, width as nat));
}

/// The folder name `YYYY_MM_DD` of a calendar date.
pub fn bucket_name_for_date(year: i32, month: u32, day: u32) -> (r: String)
    ensures
        r@ == bucket_text(year as int, month as int, day as int),
{
    let mut s = String::new();
    if year > 9999 {
        s.append("+");
    } else if year < 0 {
        s.append("-");
    }
    let magnitude: u64 = if year < 0 {
        (-(year as i64)) as u64
    } else {
        year as u64
    };
    append_padded(&mut s, magnitude, 4);
    s.append("_");
    append_padded(&mut s, month as u64, 2);
    s.append("_");
    append_padded(&mut s, day as u64, 2);
    proof {
        reveal_strlit("+");
        reveal_strlit("-");
        reveal_strlit("_");
    }
    assert(s@ =~= bucket_text(year as int, month as int, day as int));
    s
}

/// The date folder for a file created `secs` seconds after the Unix epoch,
/// in UTC; `None` where chrono has no date for that second.
pub fn bucket_name(secs: u64) -> (r: Option<String>)
    ensures
        secs > i64::MAX ==> r is None,
        secs <= LAST_SECOND_OF_9999 ==> r is Some,
        r matches Some(b) ==> secs <= i64::MAX && b@ == bucket_of_date(
            utc_calendar_date(secs as i64),
        ),
{
    if secs > i64::MAX as u64 {
        return None;
    }
    match utc_date(secs as i64) {
        Some(d) => Some(bucket_name_for_date(d.0, d.1, d.2)),
        None => None,
    }
}

} // verus!
