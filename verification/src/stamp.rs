//! The compact numeric timestamp `[[CC]YY]MMDDhhmm[.ss]`.  The digit-only
//! prefix must be 8, 10 or 12 digits long; an optional `.ss` suffix supplies
//! seconds, which default to 0.  An 8-digit stamp borrows the current
//! calendar year; a 10-digit stamp resolves its two-digit year by the POSIX
//! pivot (values of 70 and above fall in the 1900s, below 70 in the 2000s);
//! a 12-digit stamp spells the full year.

use vstd::prelude::*;
use vstd::string::StrSliceExecFns;
use crate::scan::all_digits;
use crate::scan::digit_val;
use crate::scan::digits_val;
use crate::scan::find_from;
use crate::scan::is_digit;
use crate::scan::lemma_find_from_props;
use crate::scan::two_digits_at;
use crate::scan::check_digits;
use crate::scan::digits_value;
use crate::scan::find_char_from;
use crate::scan::two_digit;
use crate::calendar::DateTimeFields;
use crate::calendar::valid_date;
use crate::calendar::valid_time;
use crate::calendar::valid_fields;
use crate::calendar::epoch_secs;
use crate::calendar::check_valid_date;
use crate::calendar::check_valid_time;
use crate::calendar::fields_to_epoch;
use crate::errors::ParseError;

verus! {

/// The year encoded by a digit-only stamp prefix of length 8, 10 or 12.
pub open spec fn stamp_year(base: Seq<char>, current_year: int) -> int
    recommends
        all_digits(base),
{
    if base.len() == 8 {
        current_year
    } else if base.len() == 10 {
        let yy = two_digits_at(base, 0);
        if yy >= 70 {
            1900 + yy
        } else {
            2000 + yy
        }
    } else {
        two_digits_at(base, 0) * 100 + two_digits_at(base, 2)
    }
}

/// Index of the month group inside a stamp prefix of the given length.
pub open spec fn month_offset(len: int) -> int {
    if len == 8 {
        0
    } else if len == 10 {
        2
    } else {
        4
    }
}

/// The raw fields spelled by a digit-only stamp prefix, before validation.
pub open spec fn stamp_fields(base: Seq<char>, second: int, current_year: int) -> DateTimeFields
    recommends
        all_digits(base),
        base.len() == 8 || base.len() == 10 || base.len() == 12,
{
    let off = month_offset(base.len() as int);
    DateTimeFields {
        year: stamp_year(base, current_year) as i32,
        month: two_digits_at(base, off) as u32,
        day: two_digits_at(base, off + 2) as u32,
        hour: two_digits_at(base, off + 4) as u32,
        minute: two_digits_at(base, off + 6) as u32,
        second: second as u32,
    }
}

/// Parse of the digit-only prefix once the seconds suffix is split off.
pub open spec fn parse_compact_base(base: Seq<char>, second: int, current_year: int) -> Result<
    DateTimeFields,
    ParseError,
> {
    if base.len() != 8 && base.len() != 10 && base.len() != 12 {
        Err(ParseError::BadStampLength { len: base.len() as usize })
    } else if !all_digits(base) {
        Err(ParseError::NotNumeric)
    } else {
        let f = stamp_fields(base, second, current_year);
        if valid_date(f.year as int, f.month as int, f.day as int) && valid_time(
            f.hour as int,
            f.minute as int,
            f.second as int,
        ) {
            Ok(f)
        } else {
            Err(
                ParseError::InvalidDateTime {
                    year: f.year,
                    month: f.month,
                    day: f.day,
                    hour: f.hour,
                    minute: f.minute,
                    second: f.second,
                },
            )
        }
    }
}

/// Full compact-stamp parse: at most one dot, a digit-only seconds suffix
/// behind it, then the prefix rules above.
pub open spec fn parse_compact(s: Seq<char>, current_year: int) -> Result<
    DateTimeFields,
    ParseError,
> {
    let d = find_from(s, '.', 0);
    if d == s.len() {
        parse_compact_base(s, 0, current_year)
    } else if find_from(s, '.', d + 1) != s.len() {
        Err(ParseError::NotNumeric)
    } else {
        let secs = s.subrange(d + 1, s.len() as int);
        if secs.len() == 0 || secs.len() > 9 || !all_digits(secs) {
            Err(ParseError::NotNumeric)
        } else {
            parse_compact_base(s.take(d), digits_val(secs), current_year)
        }
    }
}

fn parse_base(s: &str, hi: usize, second: u32, current_year: i32) -> (r: Result<
    DateTimeFields,
    ParseError,
>)
    requires
        hi <= s@.len(),
        0 <= current_year <= 9999,
    ensures
        r == parse_compact_base(s@.take(hi as int), second as int, current_year as int),
        r is Ok ==> valid_fields(r->Ok_0),
{
    let ghost base = s@.take(hi as int);
    if hi != 8 && hi != 10 && hi != 12 {
        return Err(ParseError::BadStampLength { len: hi });
    }
    proof {
        assert(base =~= s@.subrange(0, hi as int));
    }
    if !check_digits(s, 0, hi) {
        return Err(ParseError::NotNumeric);
    }
    proof {
        assert(forall|j: int| 0 <= j < hi ==> base[j] == s@[j]);
    }
    let off: usize = if hi == 8 {
        0
    } else if hi == 10 {
        2
    } else {
        4
    };
    let year: i32 = if hi == 8 {
        current_year
    } else if hi == 10 {
        let yy: u32 = two_digit(s, 0);
        if yy >= 70 {
            1900 + yy as i32
        } else {
            2000 + yy as i32
        }
    } else {
        let cc: u32 = two_digit(s, 0);
        let yy: u32 = two_digit(s, 2);
        (cc * 100 + yy) as i32
    };
    let month: u32 = two_digit(s, off);
    let day: u32 = two_digit(s, off + 2);
    let hour: u32 = two_digit(s, off + 4);
    let minute: u32 = two_digit(s, off + 6);
    let f = DateTimeFields { year, month, day, hour, minute, second };
    proof {
        assert(f == stamp_fields(base, second as int, current_year as int));
    }
    if check_valid_date(year, month, day) && check_valid_time(hour, minute, second) {
        Ok(f)
    } else {
        Err(ParseError::InvalidDateTime { year, month, day, hour, minute, second })
    }
}

/// The digit character that spells the value `d`.
pub open spec fn digit_char(d: int) -> char {
    ((d + 48) as u8) as char
}

/// The two digit characters that spell a value below one hundred.
pub open spec fn two_digit_chars(n: int) -> Seq<char> {
    seq![digit_char(n / 10), digit_char(n % 10)]
}

/// The `MMDDhhmm` body shared by the three stamp lengths.
pub open spec fn stamp_body(f: DateTimeFields) -> Seq<char> {
    two_digit_chars(f.month as int) + two_digit_chars(f.day as int) + two_digit_chars(
        f.hour as int,
    ) + two_digit_chars(f.minute as int)
}

/// The 8-digit rendering of fields whose year is the current one.
pub open spec fn stamp8_of(f: DateTimeFields) -> Seq<char> {
    stamp_body(f)
}

/// The 10-digit rendering, with a two-digit year.
pub open spec fn stamp10_of(f: DateTimeFields) -> Seq<char> {
    two_digit_chars(f.year as int % 100) + stamp_body(f)
}

/// The 12-digit rendering, with century and year spelled in full.
pub open spec fn stamp12_of(f: DateTimeFields) -> Seq<char> {
    two_digit_chars(f.year as int / 100) + two_digit_chars(f.year as int % 100) + stamp_body(f)
}

pub proof fn lemma_digit_char(d: int)
    requires
        0 <= d < 10,
    ensures
        is_digit(digit_char(d)),
        digit_val(digit_char(d)) == d,
{
}

pub proof fn lemma_two_digit_chars(n: int)
    requires
        0 <= n < 100,
    ensures
        two_digit_chars(n).len() == 2,
        all_digits(two_digit_chars(n)),
        two_digits_at(two_digit_chars(n), 0) == n,
{
    lemma_digit_char(n / 10);
    lemma_digit_char(n % 10);
    assert(two_digit_chars(n)[0] == digit_char(n / 10));
    assert(two_digit_chars(n)[1] == digit_char(n % 10));
    assert forall|i: int| 0 <= i < 2 implies is_digit(#[trigger] two_digit_chars(n)[i]) by {
        if i == 0 {
            assert(two_digit_chars(n)[0] == digit_char(n / 10));
        } else {
            assert(two_digit_chars(n)[1] == digit_char(n % 10));
        }
    }
}

/// A run of digits holds no dot, so the whole stamp is its prefix.
proof fn lemma_digits_have_no_dot(s: Seq<char>)
    requires
        all_digits(s),
    ensures
        find_from(s, '.', 0) == s.len(),
{
    lemma_find_from_props(s, '.', 0);
    let r = find_from(s, '.', 0);
    if r < s.len() {
        assert(is_digit(s[r]));
        assert(s[r] == '.');
        assert(false);
    }
}

/// The two-digit group at `off` of a stamp assembled from two-digit
/// renderings reads back the rendered value.
proof fn lemma_group_value(s: Seq<char>, off: int, n: int)
    requires
        0 <= n < 100,
        0 <= off,
        off + 2 <= s.len(),
        s.subrange(off, off + 2) =~= two_digit_chars(n),
    ensures
        two_digits_at(s, off) == n,
{
    lemma_two_digit_chars(n);
    assert(s[off] == s.subrange(off, off + 2)[0]);
    assert(s[off + 1] == s.subrange(off, off + 2)[1]);
}

/// Round trip at length 12: rendering valid fields as `CCYYMMDDhhmm` and
/// reparsing yields the same calendar date and time.
pub proof fn lemma_compact_round_trip_12(f: DateTimeFields, current_year: int)
    requires
        valid_fields(f),
        f.second == 0,
    ensures
        parse_compact(stamp12_of(f), current_year) == Ok::<DateTimeFields, ParseError>(f),
{
    let y = f.year as int;
    let s = stamp12_of(f);
    lemma_two_digit_chars(y / 100);
    lemma_two_digit_chars(y % 100);
    lemma_two_digit_chars(f.month as int);
    lemma_two_digit_chars(f.day as int);
    lemma_two_digit_chars(f.hour as int);
    lemma_two_digit_chars(f.minute as int);
    assert(s.len() == 12);
    assert(s.subrange(0, 2) =~= two_digit_chars(y / 100));
    assert(s.subrange(2, 4) =~= two_digit_chars(y % 100));
    assert(s.subrange(4, 6) =~= two_digit_chars(f.month as int));
    assert(s.subrange(6, 8) =~= two_digit_chars(f.day as int));
    assert(s.subrange(8, 10) =~= two_digit_chars(f.hour as int));
    assert(s.subrange(10, 12) =~= two_digit_chars(f.minute as int));
    assert forall|i: int| 0 <= i < 12 implies is_digit(#[trigger] s[i]) by {
        if i < 2 {
            assert(s[i] == s.subrange(0, 2)[i]);
        } else if i < 4 {
            assert(s[i] == s.subrange(2, 4)[i - 2]);
        } else if i < 6 {
            assert(s[i] == s.subrange(4, 6)[i - 4]);
        } else if i < 8 {
            assert(s[i] == s.subrange(6, 8)[i - 6]);
        } else if i < 10 {
            assert(s[i] == s.subrange(8, 10)[i - 8]);
        } else {
            assert(s[i] == s.subrange(10, 12)[i - 10]);
        }
    }
    assert(all_digits(s));
    lemma_digits_have_no_dot(s);
    lemma_group_value(s, 0, y / 100);
    lemma_group_value(s, 2, y % 100);
    lemma_group_value(s, 4, f.month as int);
    lemma_group_value(s, 6, f.day as int);
    lemma_group_value(s, 8, f.hour as int);
    lemma_group_value(s, 10, f.minute as int);
    assert(stamp_year(s, current_year) == (y / 100) * 100 + y % 100);
    assert((y / 100) * 100 + y % 100 == y);
    assert(stamp_fields(s, 0, current_year) == f);
}

/// Round trip at length 10: rendering a year between 1970 and 2069 as
/// `YYMMDDhhmm` and reparsing through the pivot yields the same fields.
pub proof fn lemma_compact_round_trip_10(f: DateTimeFields, current_year: int)
    requires
        valid_fields(f),
        f.second == 0,
        1970 <= f.year <= 2069,
    ensures
        parse_compact(stamp10_of(f), current_year) == Ok::<DateTimeFields, ParseError>(f),
{
    let y = f.year as int;
    let s = stamp10_of(f);
    lemma_two_digit_chars(y % 100);
    lemma_two_digit_chars(f.month as int);
    lemma_two_digit_chars(f.day as int);
    lemma_two_digit_chars(f.hour as int);
    lemma_two_digit_chars(f.minute as int);
    assert(s.len() == 10);
    assert(s.subrange(0, 2) =~= two_digit_chars(y % 100));
    assert(s.subrange(2, 4) =~= two_digit_chars(f.month as int));
    assert(s.subrange(4, 6) =~= two_digit_chars(f.day as int));
    assert(s.subrange(6, 8) =~= two_digit_chars(f.hour as int));
    assert(s.subrange(8, 10) =~= two_digit_chars(f.minute as int));
    assert forall|i: int| 0 <= i < 10 implies is_digit(#[trigger] s[i]) by {
        if i < 2 {
            assert(s[i] == s.subrange(0, 2)[i]);
        } else if i < 4 {
            assert(s[i] == s.subrange(2, 4)[i - 2]);
        } else if i < 6 {
            assert(s[i] == s.subrange(4, 6)[i - 4]);
        } else if i < 8 {
            assert(s[i] == s.subrange(6, 8)[i - 6]);
        } else {
            assert(s[i] == s.subrange(8, 10)[i - 8]);
        }
    }
    assert(all_digits(s));
    lemma_digits_have_no_dot(s);
    lemma_group_value(s, 0, y % 100);
    lemma_group_value(s, 2, f.month as int);
    lemma_group_value(s, 4, f.day as int);
    lemma_group_value(s, 6, f.hour as int);
    lemma_group_value(s, 8, f.minute as int);
    if y < 2000 {
        assert(y / 100 == 19);
        assert(y % 100 == y - 1900);
        assert(y % 100 >= 70);
    } else {
        assert(y / 100 == 20);
        assert(y % 100 == y - 2000);
        assert(y % 100 < 70);
    }
    assert(stamp_year(s, current_year) == y);
    assert(stamp_fields(s, 0, current_year) == f);
}

/// Round trip at length 8: rendering `MMDDhhmm` and reparsing against the
/// same current year yields the same fields.
pub proof fn lemma_compact_round_trip_8(f: DateTimeFields)
    requires
        valid_fields(f),
        f.second == 0,
    ensures
        parse_compact(stamp8_of(f), f.year as int) == Ok::<DateTimeFields, ParseError>(f),
{
    let s = stamp8_of(f);
    lemma_two_digit_chars(f.month as int);
    lemma_two_digit_chars(f.day as int);
    lemma_two_digit_chars(f.hour as int);
    lemma_two_digit_chars(f.minute as int);
    assert(s.len() == 8);
    assert(s.subrange(0, 2) =~= two_digit_chars(f.month as int));
    assert(s.subrange(2, 4) =~= two_digit_chars(f.day as int));
    assert(s.subrange(4, 6) =~= two_digit_chars(f.hour as int));
    assert(s.subrange(6, 8) =~= two_digit_chars(f.minute as int));
    assert forall|i: int| 0 <= i < 8 implies is_digit(#[trigger] s[i]) by {
        if i < 2 {
            assert(s[i] == s.subrange(0, 2)[i]);
        } else if i < 4 {
            assert(s[i] == s.subrange(2, 4)[i - 2]);
        } else if i < 6 {
            assert(s[i] == s.subrange(4, 6)[i - 4]);
        } else {
            assert(s[i] == s.subrange(6, 8)[i - 6]);
        }
    }
    assert(all_digits(s));
    lemma_digits_have_no_dot(s);
    lemma_group_value(s, 0, f.month as int);
    lemma_group_value(s, 2, f.day as int);
    lemma_group_value(s, 4, f.hour as int);
    lemma_group_value(s, 6, f.minute as int);
    assert(stamp_fields(s, 0, f.year as int) == f);
}

/// Law: the two-digit year pivot of a 10-digit stamp.  A YY group of 70
/// or above resolves to 1900+YY, one below 70 to 2000+YY.
pub proof fn lemma_two_digit_year_pivot(s: Seq<char>, current_year: int)
    requires
        s.len() == 10,
        all_digits(s),
        parse_compact(s, current_year) is Ok,
    ensures
        ({
            let yy = two_digits_at(s, 0);
            let y = parse_compact(s, current_year)->Ok_0.year as int;
            (yy >= 70 ==> y == 1900 + yy) && (yy < 70 ==> y == 2000 + yy)
        }),
{
    lemma_digits_have_no_dot(s);
    assert(is_digit(s[0]));
    assert(is_digit(s[1]));
}

/// Parses a compact stamp into calendar fields.  `current_year` stands in
/// for an 8-digit stamp's missing year and comes from the caller's clock.
pub fn parse_compact_stamp(s: &str, current_year: i32) -> (r: Result<DateTimeFields, ParseError>)
    requires
        0 <= current_year <= 9999,
    ensures
        r == parse_compact(s@, current_year as int),
        r is Ok ==> valid_fields(r->Ok_0),
{
    let n: usize = s.unicode_len();
    let d: usize = find_char_from(s, '.', 0);
    if d == n {
        proof {
            assert(s@.take(n as int) =~= s@);
        }
        parse_base(s, n, 0, current_year)
    } else {
        let d2: usize = find_char_from(s, '.', d + 1);
        if d2 != n {
            return Err(ParseError::NotNumeric);
        }
        let slen: usize = n - (d + 1);
        if slen == 0 || slen > 9 {
            return Err(ParseError::NotNumeric);
        }
        match digits_value(s, d + 1, n) {
            None => Err(ParseError::NotNumeric),
            Some(v) => parse_base(s, d, v, current_year),
        }
    }
}

/// Parses a compact stamp and converts it to seconds since the Unix epoch.
pub fn parse_timestamp_format(s: &str, current_year: i32) -> (r: Result<i64, ParseError>)
    requires
        0 <= current_year <= 9999,
    ensures
        r is Ok <==> parse_compact(s@, current_year as int) is Ok,
        r is Ok ==> r->Ok_0 == epoch_secs(parse_compact(s@, current_year as int)->Ok_0),
        r is Err ==> r->Err_0 == parse_compact(s@, current_year as int)->Err_0,
{
    match parse_compact_stamp(s, current_year) {
        Ok(f) => Ok(fields_to_epoch(&f)),
        Err(e) => Err(e),
    }
}

} // verus!
