//! Free-form date strings.  A string is tried against an ordered list of
//! candidate shapes - year-month-day with `-`, month/day/year with `/`,
//! day.month.year with `.` - each with an optional time of day `hh:mm` or
//! `hh:mm:ss` after a single space, defaulting to midnight.  The first
//! shape that matches wins; the shapes are mutually exclusive, since the
//! separator characters differ and every component is digit-only.

use vstd::prelude::*;
use vstd::string::StrSliceExecFns;
use crate::scan::all_digits;
use crate::scan::digits_val;
use crate::scan::find_from;
use crate::scan::pow10;
use crate::scan::digits_value;
use crate::scan::find_char_from;
use crate::scan::lemma_digits_val_bounds;
use crate::calendar::DateTimeFields;
use crate::calendar::valid_date;
use crate::calendar::valid_time;
use crate::calendar::valid_fields;
use crate::calendar::epoch_secs;
use crate::calendar::check_valid_date;
use crate::calendar::check_valid_time;
use crate::calendar::fields_to_epoch;
use crate::errors::ParseError;

verus! {

/// In which order a date shape spells its three components.
#[derive(Clone, Copy, PartialEq, Eq, Structural, Debug)]
pub enum DateOrder {
    YearMonthDay,
    MonthDayYear,
    DayMonthYear,
}

/// A short numeric component: one or two digits.
pub open spec fn ok_num(x: Seq<char>, maxlen: int) -> bool {
    1 <= x.len() <= maxlen && all_digits(x)
}

/// A year component: exactly four digits.
pub open spec fn ok_year(x: Seq<char>) -> bool {
    x.len() == 4 && all_digits(x)
}

/// The date half of a candidate shape: three numeric components joined by
/// exactly two occurrences of `sep`, read in the order the shape gives.
/// Yields (year, month, day).
pub open spec fn try_date_part(dp: Seq<char>, sep: char, order: DateOrder) -> Option<
    (int, int, int),
> {
    let i = find_from(dp, sep, 0);
    if i == dp.len() {
        None
    } else {
        let j = find_from(dp, sep, i + 1);
        if j == dp.len() {
            None
        } else if find_from(dp, sep, j + 1) != dp.len() {
            None
        } else {
            let a = dp.take(i);
            let b = dp.subrange(i + 1, j);
            let c = dp.subrange(j + 1, dp.len() as int);
            match order {
                DateOrder::YearMonthDay => if ok_year(a) && ok_num(b, 2) && ok_num(c, 2) {
                    Some((digits_val(a), digits_val(b), digits_val(c)))
                } else {
                    None
                },
                DateOrder::MonthDayYear => if ok_num(a, 2) && ok_num(b, 2) && ok_year(c) {
                    Some((digits_val(c), digits_val(a), digits_val(b)))
                } else {
                    None
                },
                DateOrder::DayMonthYear => if ok_num(a, 2) && ok_num(b, 2) && ok_year(c) {
                    Some((digits_val(c), digits_val(b), digits_val(a)))
                } else {
                    None
                },
            }
        }
    }
}

/// The time half: `hh:mm` (seconds default 0) or `hh:mm:ss`, each component
/// one or two digits.  Yields (hour, minute, second).
pub open spec fn try_time_part(tp: Seq<char>) -> Option<(int, int, int)> {
    let i = find_from(tp, ':', 0);
    if i == tp.len() {
        None
    } else {
        let j = find_from(tp, ':', i + 1);
        if j == tp.len() {
            let a = tp.take(i);
            let b = tp.subrange(i + 1, tp.len() as int);
            if ok_num(a, 2) && ok_num(b, 2) {
                Some((digits_val(a), digits_val(b), 0))
            } else {
                None
            }
        } else if find_from(tp, ':', j + 1) != tp.len() {
            None
        } else {
            let a = tp.take(i);
            let b = tp.subrange(i + 1, j);
            let c = tp.subrange(j + 1, tp.len() as int);
            if ok_num(a, 2) && ok_num(b, 2) && ok_num(c, 2) {
                Some((digits_val(a), digits_val(b), digits_val(c)))
            } else {
                None
            }
        }
    }
}

/// One candidate shape applied to the whole string: the part before the
/// first space must be a date, the part after it (if any) a time of day,
/// and the resulting fields must name a real calendar date and time.
pub open spec fn try_family(s: Seq<char>, sep: char, order: DateOrder) -> Option<DateTimeFields> {
    let sp = find_from(s, ' ', 0);
    match try_date_part(s.take(sp), sep, order) {
        None => None,
        Some(ymd) => {
            let t = if sp == s.len() {
                Some((0int, 0int, 0int))
            } else {
                try_time_part(s.subrange(sp + 1, s.len() as int))
            };
            match t {
                None => None,
                Some(hms) => {
                    if valid_date(ymd.0, ymd.1, ymd.2) && valid_time(hms.0, hms.1, hms.2) {
                        Some(
                            DateTimeFields {
                                year: ymd.0 as i32,
                                month: ymd.1 as u32,
                                day: ymd.2 as u32,
                                hour: hms.0 as u32,
                                minute: hms.1 as u32,
                                second: hms.2 as u32,
                            },
                        )
                    } else {
                        None
                    }
                },
            }
        },
    }
}

/// The whole free-form parse: first matching shape wins, and a string that
/// matches none of them is rejected.
pub open spec fn parse_date(s: Seq<char>) -> Result<DateTimeFields, ParseError> {
    if try_family(s, '-', DateOrder::YearMonthDay) is Some {
        Ok(try_family(s, '-', DateOrder::YearMonthDay)->0)
    } else if try_family(s, '/', DateOrder::MonthDayYear) is Some {
        Ok(try_family(s, '/', DateOrder::MonthDayYear)->0)
    } else if try_family(s, '.', DateOrder::DayMonthYear) is Some {
        Ok(try_family(s, '.', DateOrder::DayMonthYear)->0)
    } else {
        Err(ParseError::UnrecognizedDate)
    }
}

fn date_part(dp: &str, sep: char, order: DateOrder) -> (r: Option<(i32, u32, u32)>)
    ensures
        r is Some <==> try_date_part(dp@, sep, order) is Some,
        r is Some ==> {
            let w = r->0;
            let v = try_date_part(dp@, sep, order)->0;
            w.0 as int == v.0 && w.1 as int == v.1 && w.2 as int == v.2 && 0 <= w.0 < 10000
        },
{
    let n: usize = dp.unicode_len();
    let i: usize = find_char_from(dp, sep, 0);
    if i == n {
        return None;
    }
    let j: usize = find_char_from(dp, sep, i + 1);
    if j == n {
        return None;
    }
    let k: usize = find_char_from(dp, sep, j + 1);
    if k != n {
        return None;
    }
    let ghost a = dp@.take(i as int);
    let ghost b = dp@.subrange(i as int + 1, j as int);
    let ghost c = dp@.subrange(j as int + 1, dp@.len() as int);
    proof {
        assert(a =~= dp@.subrange(0, i as int));
    }
    let blen: usize = j - (i + 1);
    let clen: usize = n - (j + 1);
    let (alen_ok, blen_ok, clen_ok): (bool, bool, bool) = match order {
        DateOrder::YearMonthDay => (i == 4, 1 <= blen && blen <= 2, 1 <= clen && clen <= 2),
        DateOrder::MonthDayYear => (
            1 <= i && i <= 2,
            1 <= blen && blen <= 2,
            clen == 4,
        ),
        DateOrder::DayMonthYear => (
            1 <= i && i <= 2,
            1 <= blen && blen <= 2,
            clen == 4,
        ),
    };
    if !(alen_ok && blen_ok && clen_ok) {
        return None;
    }
    let va: u32 = match digits_value(dp, 0, i) {
        Some(v) => v,
        None => {
            return None;
        },
    };
    let vb: u32 = match digits_value(dp, i + 1, j) {
        Some(v) => v,
        None => {
            return None;
        },
    };
    let vc: u32 = match digits_value(dp, j + 1, n) {
        Some(v) => v,
        None => {
            return None;
        },
    };
    proof {
        lemma_digits_val_bounds(a);
        lemma_digits_val_bounds(b);
        lemma_digits_val_bounds(c);
        crate::scan::lemma_pow10_mono(a.len(), 4);
        crate::scan::lemma_pow10_mono(b.len(), 4);
        crate::scan::lemma_pow10_mono(c.len(), 4);
        reveal_with_fuel(pow10, 5);
        assert(pow10(4) == 10000);
    }
    match order {
        DateOrder::YearMonthDay => Some((va as i32, vb, vc)),
        DateOrder::MonthDayYear => Some((vc as i32, va, vb)),
        DateOrder::DayMonthYear => Some((vc as i32, vb, va)),
    }
}

fn time_part(tp: &str) -> (r: Option<(u32, u32, u32)>)
    ensures
        r is Some <==> try_time_part(tp@) is Some,
        r is Some ==> {
            let w = r->0;
            let v = try_time_part(tp@)->0;
            w.0 as int == v.0 && w.1 as int == v.1 && w.2 as int == v.2
        },
{
    let n: usize = tp.unicode_len();
    let i: usize = find_char_from(tp, ':', 0);
    if i == n {
        return None;
    }
    let j: usize = find_char_from(tp, ':', i + 1);
    let ghost a = tp@.take(i as int);
    proof {
        assert(a =~= tp@.subrange(0, i as int));
    }
    if j == n {
        let blen: usize = n - (i + 1);
        if !(1 <= i && i <= 2 && 1 <= blen && blen <= 2) {
            return None;
        }
        let va: u32 = match digits_value(tp, 0, i) {
            Some(v) => v,
            None => {
                return None;
            },
        };
        let vb: u32 = match digits_value(tp, i + 1, n) {
            Some(v) => v,
            None => {
                return None;
            },
        };
        Some((va, vb, 0))
    } else {
        let k: usize = find_char_from(tp, ':', j + 1);
        if k != n {
            return None;
        }
        let blen: usize = j - (i + 1);
        let clen: usize = n - (j + 1);
        if !(1 <= i && i <= 2 && 1 <= blen && blen <= 2 && 1 <= clen && clen <= 2) {
            return None;
        }
        let va: u32 = match digits_value(tp, 0, i) {
            Some(v) => v,
            None => {
                return None;
            },
        };
        let vb: u32 = match digits_value(tp, i + 1, j) {
            Some(v) => v,
            None => {
                return None;
            },
        };
        let vc: u32 = match digits_value(tp, j + 1, n) {
            Some(v) => v,
            None => {
                return None;
            },
        };
        Some((va, vb, vc))
    }
}

fn family(s: &str, sep: char, order: DateOrder) -> (r: Option<DateTimeFields>)
    ensures
        r is Some <==> try_family(s@, sep, order) is Some,
        r is Some ==> r->0 == try_family(s@, sep, order)->0,
        r is Some ==> valid_fields(r->0),
{
    let n: usize = s.unicode_len();
    let sp: usize = find_char_from(s, ' ', 0);
    let dp: &str = s.substring_char(0, sp);
    proof {
        assert(dp@ =~= s@.take(sp as int));
    }
    let ymd: (i32, u32, u32) = match date_part(dp, sep, order) {
        Some(v) => v,
        None => {
            return None;
        },
    };
    let hms: (u32, u32, u32) = if sp == n {
        (0, 0, 0)
    } else {
        let tp: &str = s.substring_char(sp + 1, n);
        proof {
            assert(tp@ =~= s@.subrange(sp as int + 1, s@.len() as int));
        }
        match time_part(tp) {
            Some(v) => v,
            None => {
                return None;
            },
        }
    };
    if check_valid_date(ymd.0, ymd.1, ymd.2) && check_valid_time(hms.0, hms.1, hms.2) {
        Some(
            DateTimeFields {
                year: ymd.0,
                month: ymd.1,
                day: ymd.2,
                hour: hms.0,
                minute: hms.1,
                second: hms.2,
            },
        )
    } else {
        None
    }
}

/// Parses a free-form date string into calendar fields.
pub fn parse_date_fields(s: &str) -> (r: Result<DateTimeFields, ParseError>)
    ensures
        r == parse_date(s@),
        r is Ok ==> valid_fields(r->Ok_0),
{
    match family(s, '-', DateOrder::YearMonthDay) {
        Some(f) => Ok(f),
        None => match family(s, '/', DateOrder::MonthDayYear) {
            Some(f) => Ok(f),
            None => match family(s, '.', DateOrder::DayMonthYear) {
                Some(f) => Ok(f),
                None => Err(ParseError::UnrecognizedDate),
            },
        },
    }
}

/// Parses a free-form date string and converts it to seconds since the
/// Unix epoch.
pub fn parse_date_string(s: &str) -> (r: Result<i64, ParseError>)
    ensures
        r is Ok <==> parse_date(s@) is Ok,
        r is Ok ==> r->Ok_0 == epoch_secs(parse_date(s@)->Ok_0),
        r is Err ==> r->Err_0 == parse_date(s@)->Err_0,
{
    match parse_date_fields(s) {
        Ok(f) => Ok(fields_to_epoch(&f)),
        Err(e) => Err(e),
    }
}

} // verus!
