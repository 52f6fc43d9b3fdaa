//! Permission modes: an octal numeral such as `755`, parsed into a 32-bit
//! mode word.  The caller hands the word to the platform's permission
//! call; the parse itself is exact and rejects anything that is not a
//! nonempty run of octal digits, or whose value does not fit.

use vstd::prelude::*;
use vstd::string::StrSliceExecFns;
use crate::scan::digit_val;
use crate::errors::ParseError;

verus! {

pub open spec fn is_octal_digit(c: char) -> bool {
    48 <= c as int && c as int <= 55
}

pub open spec fn all_octal(s: Seq<char>) -> bool {
    forall|i: int| 0 <= i < s.len() ==> is_octal_digit(#[trigger] s[i])
}

/// Value of a run of octal digits (most significant first).
pub open spec fn octal_val(s: Seq<char>) -> int
    decreases s.len(),
{
    if s.len() == 0 {
        0
    } else {
        octal_val(s.drop_last()) * 8 + digit_val(s.last())
    }
}

pub proof fn lemma_octal_val_nonneg(s: Seq<char>)
    requires
        all_octal(s),
    ensures
        octal_val(s) >= 0,
    decreases s.len(),
{
    if s.len() > 0 {
        assert(all_octal(s.drop_last()));
        lemma_octal_val_nonneg(s.drop_last());
    }
}

/// A longer run of octal digits never has a smaller value than any of its
/// prefixes.
pub proof fn lemma_octal_prefix_le(s: Seq<char>, i: int)
    requires
        0 <= i <= s.len(),
        all_octal(s),
    ensures
        octal_val(s.take(i)) <= octal_val(s),
    decreases s.len() - i,
{
    if i == s.len() {
        assert(s.take(i) =~= s);
    } else {
        assert(s.take(i + 1).drop_last() =~= s.take(i));
        assert(all_octal(s.take(i)));
        lemma_octal_val_nonneg(s.take(i));
        assert(s.take(i + 1).last() == s[i]);
        lemma_octal_prefix_le(s, i + 1);
    }
}

/// Parses an octal mode string.  Succeeds exactly on a nonempty run of
/// octal digits whose value fits a 32-bit word, and yields that value.
pub fn parse_mode(s: &str) -> (r: Result<u32, ParseError>)
    ensures
        r is Ok <==> (s@.len() > 0 && all_octal(s@) && octal_val(s@) <= u32::MAX),
        r is Ok ==> r->Ok_0 as int == octal_val(s@),
        r is Err ==> r->Err_0 == ParseError::BadMode,
{
    let n: usize = s.unicode_len();
    if n == 0 {
        return Err(ParseError::BadMode);
    }
    let mut i: usize = 0;
    let mut acc: u64 = 0;
    while i < n
        invariant
            i <= n,
            n == s@.len(),
            all_octal(s@.take(i as int)),
            acc as int == octal_val(s@.take(i as int)),
            acc <= u32::MAX as u64,
        decreases n - i,
    {
        let u: u32 = s.get_char(i) as u32;
        if u < 48 || u > 55 {
            proof {
                assert(!is_octal_digit(s@[i as int]));
            }
            return Err(ParseError::BadMode);
        }
        let d: u64 = (u - 48) as u64;
        let next: u64 = acc * 8 + d;
        proof {
            assert(s@.take(i as int + 1).drop_last() =~= s@.take(i as int));
            assert(s@.take(i as int + 1).last() == s@[i as int]);
        }
        if next > 4294967295u64 {
            proof {
                if all_octal(s@) {
                    lemma_octal_prefix_le(s@, i as int + 1);
                }
            }
            return Err(ParseError::BadMode);
        }
        acc = next;
        i = i + 1;
    }
    proof {
        assert(s@.take(n as int) =~= s@);
    }
    Ok(acc as u32)
}

} // verus!
