//! Multi-format datetime coercion. A fixture string is tried against the
//! accepted wall-clock formats — `YYYY-MM-DD HH:MM[:SS]`,
//! `YYYY/MM/DD HH:MM[:SS]`, `YYYYMMDD HH:MM[:SS]` and `DDMMYYYY HH:MM[:SS]` —
//! and yields a [`Datetime`] when exactly one of them both matches and names
//! a calendar-valid instant. The two compact eight-digit forms share a
//! shape, so the year-first reading is preferred and the day-first reading
//! is used only when the year-first one is not calendar-valid.

use vstd::prelude::*;

verus! {

/// A wall-clock date and time, kept in naive/local form: fixture datetimes
/// are bound to the database without a zone attached.
#[derive(Clone, Copy, PartialEq, Eq, Structural, Debug)]
pub struct Datetime {
    pub year: u16,
    pub month: u8,
    pub day: u8,
    pub hour: u8,
    pub minute: u8,
    pub second: u8,
}

/// The number of days of `month` in `year`, with the Gregorian leap rule.
pub open spec fn spec_days_in_month(year: int, month: int) -> int {
    if month == 2 {
        if year % 4 == 0 && (year % 100 != 0 || year % 400 == 0) {
            29
        } else {
            28
        }
    } else if month == 4 || month == 6 || month == 9 || month == 11 {
        30
    } else {
        31
    }
}

impl Datetime {
    /// A calendar-valid datetime with a four-digit year.
    pub open spec fn wf(self) -> bool {
        &&& self.year <= 9999
        &&& 1 <= self.month <= 12
        &&& 1 <= self.day <= spec_days_in_month(self.year as int, self.month as int)
        &&& self.hour <= 23
        &&& self.minute <= 59
        &&& self.second <= 59
    }
}

pub open spec fn is_digit(c: char) -> bool {
    48 <= c as int <= 57
}

/// The value of one decimal digit character.
pub open spec fn dv(c: char) -> int {
    c as int - 48
}

/// All of `s[i .. i + n)` are decimal digits.
pub open spec fn digits_at(s: Seq<char>, i: int, n: int) -> bool {
    forall|j: int| i <= j < i + n ==> is_digit(#[trigger] s[j])
}

/// The two-digit number at `s[i .. i + 2)`.
pub open spec fn num2(s: Seq<char>, i: int) -> int {
    dv(s[i]) * 10 + dv(s[i + 1])
}

/// The four-digit number at `s[i .. i + 4)`.
pub open spec fn num4(s: Seq<char>, i: int) -> int {
    dv(s[i]) * 1000 + dv(s[i + 1]) * 100 + dv(s[i + 2]) * 10 + dv(s[i + 3])
}

/// `s` starts with a `YYYY<sep>MM<sep>DD` date.
pub open spec fn sep_date_shape(s: Seq<char>, sep: char) -> bool {
    &&& s.len() >= 10
    &&& digits_at(s, 0, 4)
    &&& s[4] == sep
    &&& digits_at(s, 5, 2)
    &&& s[7] == sep
    &&& digits_at(s, 8, 2)
}

/// `s` starts with eight decimal digits.
pub open spec fn compact_date_shape(s: Seq<char>) -> bool {
    s.len() >= 8 && digits_at(s, 0, 8)
}

/// After a date of `d` characters, `s` ends with ` HH:MM` or ` HH:MM:SS`.
pub open spec fn time_shape(s: Seq<char>, d: int) -> bool {
    &&& (s.len() == d + 6 || (s.len() == d + 9 && s[d + 6] == ':' && digits_at(s, d + 7, 2)))
    &&& s[d] == ' '
    &&& digits_at(s, d + 1, 2)
    &&& s[d + 3] == ':'
    &&& digits_at(s, d + 4, 2)
}

pub open spec fn spec_hour(s: Seq<char>, d: int) -> int {
    num2(s, d + 1)
}

pub open spec fn spec_minute(s: Seq<char>, d: int) -> int {
    num2(s, d + 4)
}

/// The seconds field, zero when the short time form was given.
pub open spec fn spec_second(s: Seq<char>, d: int) -> int {
    if s.len() == d + 9 {
        num2(s, d + 7)
    } else {
        0
    }
}

/// The named fields form a calendar-valid instant.
pub open spec fn spec_fields_valid(y: int, mo: int, dy: int, h: int, mi: int, se: int) -> bool {
    &&& 0 <= y <= 9999
    &&& 1 <= mo <= 12
    &&& 1 <= dy <= spec_days_in_month(y, mo)
    &&& 0 <= h <= 23
    &&& 0 <= mi <= 59
    &&& 0 <= se <= 59
}

pub open spec fn spec_mk(y: int, mo: int, dy: int, h: int, mi: int, se: int) -> Datetime {
    Datetime {
        year: y as u16,
        month: mo as u8,
        day: dy as u8,
        hour: h as u8,
        minute: mi as u8,
        second: se as u8,
    }
}

/// The datetime named by a separator-form string, when its fields are valid.
pub open spec fn spec_parse_sep(s: Seq<char>) -> Option<Datetime> {
    if spec_fields_valid(
        num4(s, 0),
        num2(s, 5),
        num2(s, 8),
        spec_hour(s, 10),
        spec_minute(s, 10),
        spec_second(s, 10),
    ) {
        Some(
            spec_mk(
                num4(s, 0),
                num2(s, 5),
                num2(s, 8),
                spec_hour(s, 10),
                spec_minute(s, 10),
                spec_second(s, 10),
            ),
        )
    } else {
        None
    }
}

/// The datetime named by a compact-form string: the year-first reading when
/// it is calendar-valid, otherwise the day-first reading.
pub open spec fn spec_parse_compact(s: Seq<char>) -> Option<Datetime> {
    let h = spec_hour(s, 8);
    let mi = spec_minute(s, 8);
    let se = spec_second(s, 8);
    if spec_fields_valid(num4(s, 0), num2(s, 4), num2(s, 6), h, mi, se) {
        Some(spec_mk(num4(s, 0), num2(s, 4), num2(s, 6), h, mi, se))
    } else if spec_fields_valid(num4(s, 4), num2(s, 2), num2(s, 0), h, mi, se) {
        Some(spec_mk(num4(s, 4), num2(s, 2), num2(s, 0), h, mi, se))
    } else {
        None
    }
}

/// What the accepted formats make of `s`: `Some` exactly when `s` has one
/// of the four date shapes, a time part, and calendar-valid fields.
pub open spec fn spec_parse_datetime(s: Seq<char>) -> Option<Datetime> {
    if sep_date_shape(s, '-') && time_shape(s, 10) {
        spec_parse_sep(s)
    } else if sep_date_shape(s, '/') && time_shape(s, 10) {
        spec_parse_sep(s)
    } else if compact_date_shape(s) && time_shape(s, 8) {
        spec_parse_compact(s)
    } else {
        None
    }
}

/// The digit value at `s[i]`, or `None` when that character is no digit.
fn digit_at(s: &str, i: usize) -> (r: Option<u64>)
    requires
        i < s@.len(),
    ensures
        match r {
            Some(v) => is_digit(s@[i as int]) && v == dv(s@[i as int]) && v <= 9,
            None => !is_digit(s@[i as int]),
        },
{
    let c = s.get_char(i);
    let v = c as u32;
    if 48 <= v && v <= 57 {
        Some((v - 48) as u64)
    } else {
        None
    }
}

/// The two-digit number at `s[i .. i + 2)`, or `None` on a non-digit.
fn num2_at(s: &str, i: usize) -> (r: Option<u64>)
    requires
        i + 2 <= s@.len() <= usize::MAX,
    ensures
        match r {
            Some(v) => digits_at(s@, i as int, 2) && v == num2(s@, i as int) && v <= 99,
            None => !digits_at(s@, i as int, 2),
        },
{
    match (digit_at(s, i), digit_at(s, i + 1)) {
        (Some(a), Some(b)) => Some(a * 10 + b),
        _ => None,
    }
}

/// The four-digit number at `s[i .. i + 4)`, or `None` on a non-digit.
fn num4_at(s: &str, i: usize) -> (r: Option<u64>)
    requires
        i + 4 <= s@.len() <= usize::MAX,
    ensures
        match r {
            Some(v) => digits_at(s@, i as int, 4) && v == num4(s@, i as int) && v <= 9999,
            None => !digits_at(s@, i as int, 4),
        },
{
    match (digit_at(s, i), digit_at(s, i + 1), digit_at(s, i + 2), digit_at(s, i + 3)) {
        (Some(a), Some(b), Some(c), Some(d)) => Some(a * 1000 + b * 100 + c * 10 + d),
        _ => None,
    }
}

/// Whether `s[i]` is the character `c`.
fn char_is(s: &str, i: usize, c: char) -> (r: bool)
    requires
        i < s@.len(),
    ensures
        r == (s@[i as int] == c),
{
    s.get_char(i) == c
}

fn days_in_month(year: u64, month: u64) -> (r: u64)
    ensures
        r == spec_days_in_month(year as int, month as int),
{
    if month == 2 {
        if year % 4 == 0 && (year % 100 != 0 || year % 400 == 0) {
            29
        } else {
            28
        }
    } else if month == 4 || month == 6 || month == 9 || month == 11 {
        30
    } else {
        31
    }
}

fn fields_valid(y: u64, mo: u64, dy: u64, h: u64, mi: u64, se: u64) -> (r: bool)
    ensures
        r == spec_fields_valid(y as int, mo as int, dy as int, h as int, mi as int, se as int),
{
    y <= 9999 && 1 <= mo && mo <= 12 && 1 <= dy && dy <= days_in_month(y, mo) && h <= 23 && mi
        <= 59 && se <= 59
}

/// The time fields after a date of `d` characters, or `None` when the rest
/// of `s` is not ` HH:MM` or ` HH:MM:SS`.
fn time_at(s: &str, d: usize) -> (r: Option<(u64, u64, u64)>)
    requires
        s@.len() <= usize::MAX,
        d + 6 == s@.len() || d + 9 == s@.len(),
    ensures
        match r {
            Some(t) => time_shape(s@, d as int) && t.0 == spec_hour(s@, d as int) && t.1
                == spec_minute(s@, d as int) && t.2 == spec_second(s@, d as int) && t.0 <= 99 && t.1
                <= 99 && t.2 <= 99,
            None => !time_shape(s@, d as int),
        },
{
    if !char_is(s, d, ' ') {
        return None;
    }
    if !char_is(s, d + 3, ':') {
        return None;
    }
    let h = match num2_at(s, d + 1) {
        Some(v) => v,
        None => {
            return None;
        },
    };
    let mi = match num2_at(s, d + 4) {
        Some(v) => v,
        None => {
            return None;
        },
    };
    let n = s.unicode_len();
    if n >= 9 && n - 9 == d {
        if !char_is(s, d + 6, ':') {
            return None;
        }
        let se = match num2_at(s, d + 7) {
            Some(v) => v,
            None => {
                return None;
            },
        };
        Some((h, mi, se))
    } else {
        Some((h, mi, 0))
    }
}

fn mk(y: u64, mo: u64, dy: u64, h: u64, mi: u64, se: u64) -> (r: Datetime)
    requires
        y <= 9999,
        mo <= 255,
        dy <= 255,
        h <= 255,
        mi <= 255,
        se <= 255,
    ensures
        r == spec_mk(y as int, mo as int, dy as int, h as int, mi as int, se as int),
{
    Datetime {
        year: y as u16,
        month: mo as u8,
        day: dy as u8,
        hour: h as u8,
        minute: mi as u8,
        second: se as u8,
    }
}

/// Tries `s` against the accepted datetime formats.
pub fn try_str_to_date(s: &str) -> (r: Option<Datetime>)
    ensures
        r == spec_parse_datetime(s@),
        r matches Some(dt) ==> dt.wf(),
{
    let n = s.unicode_len();
    if n == 16 || n == 19 {
        // Only a separator form can have these lengths.
        let dash = char_is(s, 4, '-') && char_is(s, 7, '-');
        let slash = char_is(s, 4, '/') && char_is(s, 7, '/');
        if !(dash || slash) {
            return None;
        }
        let sep: char = if dash {
            '-'
        } else {
            '/'
        };
        let y = match num4_at(s, 0) {
            Some(v) => v,
            None => {
                return None;
            },
        };
        let mo = match num2_at(s, 5) {
            Some(v) => v,
            None => {
                return None;
            },
        };
        let dy = match num2_at(s, 8) {
            Some(v) => v,
            None => {
                return None;
            },
        };
        assert(sep_date_shape(s@, sep));
        let (h, mi, se) = match time_at(s, 10) {
            Some(t) => t,
            None => {
                return None;
            },
        };
        if fields_valid(y, mo, dy, h, mi, se) {
            Some(mk(y, mo, dy, h, mi, se))
        } else {
            None
        }
    } else if n == 14 || n == 17 {
        // Only a compact form can have these lengths.
        let ghost sv = s@;
        let y1 = match num4_at(s, 0) {
            Some(v) => v,
            None => {
                return None;
            },
        };
        let rest = match num4_at(s, 4) {
            Some(v) => v,
            None => {
                return None;
            },
        };
        assert(compact_date_shape(sv));
        let (h, mi, se) = match time_at(s, 8) {
            Some(t) => t,
            None => {
                return None;
            },
        };
        // Year-first reading: YYYYMMDD.
        let mo1 = rest / 100;
        let dy1 = rest % 100;
        assert(mo1 == num2(sv, 4) && dy1 == num2(sv, 6)) by {
            assert(rest == num2(sv, 4) * 100 + num2(sv, 6));
        };
        if fields_valid(y1, mo1, dy1, h, mi, se) {
            return Some(mk(y1, mo1, dy1, h, mi, se));
        }
        // Day-first reading: DDMMYYYY.
        let dy2 = y1 / 100;
        let mo2 = y1 % 100;
        assert(dy2 == num2(sv, 0) && mo2 == num2(sv, 2)) by {
            assert(y1 == num2(sv, 0) * 100 + num2(sv, 2));
        };
        if fields_valid(rest, mo2, dy2, h, mi, se) {
            Some(mk(rest, mo2, dy2, h, mi, se))
        } else {
            None
        }
    } else {
        None
    }
}

} // verus!
