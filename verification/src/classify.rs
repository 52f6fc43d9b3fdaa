//! Path classification: decides whether a path string denotes a file or a
//! directory.  The decision is a strict priority chain: explicit flag,
//! existing entry's kind, nonempty filename extension, trailing separator,
//! interactive choice, default to file.  The function is pure; the caller
//! supplies the outcome of the existence probe and performs the interactive
//! prompt when asked to.

use vstd::prelude::*;
use vstd::string::StrSliceExecFns;
use crate::scan::rfind;
use crate::scan::rfind_in_range;

verus! {

/// What a path is to become: a regular file or a directory.
#[derive(Clone, Copy, PartialEq, Eq, Structural, Debug)]
pub enum TargetKind {
    File,
    Directory,
}

/// Result of classification: a settled kind, or a request that the caller
/// ask its interactive capability for a binary choice (default: file).
#[derive(Clone, Copy, PartialEq, Eq, Structural, Debug)]
pub enum ClassifyOutcome {
    Decided(TargetKind),
    NeedsChoice,
}

/// Length of `s` once trailing `/` characters are removed, as the platform
/// path model removes them before splitting off the file name.
pub open spec fn trimmed_len(s: Seq<char>) -> int
    decreases s.len(),
{
    if s.len() > 0 && s.last() == '/' {
        trimmed_len(s.drop_last())
    } else {
        s.len() as int
    }
}

/// The final path component of `s`, trailing separators removed.
pub open spec fn file_name_of(s: Seq<char>) -> Seq<char> {
    let t = s.take(trimmed_len(s));
    t.subrange(rfind(t, '/') + 1, t.len() as int)
}

/// Whether the file name carries a nonempty extension.  A leading dot does
/// not begin an extension - a hidden file with no further dot has none -
/// and a trailing dot yields an empty extension, which does not count.
pub open spec fn has_nonempty_extension(s: Seq<char>) -> bool {
    let n = file_name_of(s);
    let d = rfind(n, '.');
    0 < d && d < n.len() - 1
}

pub open spec fn ends_with_separator(s: Seq<char>) -> bool {
    s.len() > 0 && (s.last() == '/' || s.last() == '\\')
}

/// The classification priority chain, first match wins.
pub open spec fn classify_spec(
    directory_flag: bool,
    file_flag: bool,
    existing: Option<TargetKind>,
    raw: Seq<char>,
    interactive: bool,
) -> ClassifyOutcome {
    if directory_flag {
        ClassifyOutcome::Decided(TargetKind::Directory)
    } else if file_flag {
        ClassifyOutcome::Decided(TargetKind::File)
    } else if existing is Some {
        ClassifyOutcome::Decided(existing->0)
    } else if has_nonempty_extension(raw) {
        ClassifyOutcome::Decided(TargetKind::File)
    } else if ends_with_separator(raw) {
        ClassifyOutcome::Decided(TargetKind::Directory)
    } else if interactive {
        ClassifyOutcome::NeedsChoice
    } else {
        ClassifyOutcome::Decided(TargetKind::File)
    }
}

/// Character length of `raw` with trailing `/` characters removed.
fn trimmed_length(s: &str) -> (r: usize)
    ensures
        r as int == trimmed_len(s@),
        r <= s@.len(),
{
    let mut i: usize = s.unicode_len();
    proof {
        assert(s@.take(i as int) =~= s@);
    }
    while i > 0
        invariant
            i <= s@.len(),
            trimmed_len(s@) == trimmed_len(s@.take(i as int)),
        decreases i,
    {
        proof {
            assert(s@.take(i as int).last() == s@[i - 1]);
        }
        if s.get_char(i - 1) != '/' {
            return i;
        }
        proof {
            assert(s@.take(i as int).drop_last() =~= s@.take(i as int - 1));
        }
        i = i - 1;
    }
    proof {
        assert(s@.take(0).len() == 0);
    }
    0
}

/// Whether the path string has a nonempty filename extension under the
/// platform's path-splitting rule.
pub fn path_has_extension(s: &str) -> (r: bool)
    ensures
        r == has_nonempty_extension(s@),
{
    let e: usize = trimmed_length(s);
    let ghost t = s@.take(trimmed_len(s@));
    proof {
        assert(t =~= s@.subrange(0, e as int));
    }
    let slash: Option<usize> = rfind_in_range(s, '/', 0, e);
    proof {
        crate::scan::lemma_rfind_props(t, '/');
    }
    let lo: usize = match slash {
        Some(k) => k + 1,
        None => 0,
    };
    let ghost n = file_name_of(s@);
    proof {
        assert(n =~= s@.subrange(lo as int, e as int));
    }
    let dot: Option<usize> = rfind_in_range(s, '.', lo, e);
    proof {
        crate::scan::lemma_rfind_props(n, '.');
    }
    match dot {
        Some(d) => d > 0 && d + 1 < e - lo,
        None => false,
    }
}

/// Whether the raw path string ends in a path-separator character.
pub fn path_ends_with_separator(s: &str) -> (r: bool)
    ensures
        r == ends_with_separator(s@),
{
    let l: usize = s.unicode_len();
    if l == 0 {
        return false;
    }
    let c = s.get_char(l - 1);
    c == '/' || c == '\\'
}

/// Decides file versus directory for one path.  `existing` is the outcome
/// of the caller's filesystem probe: `None` if the path does not exist,
/// otherwise its actual kind.  The caller must resolve `NeedsChoice` by an
/// interactive prompt and map the selection through `selection_kind`.
pub fn classify(
    directory_flag: bool,
    file_flag: bool,
    existing: Option<TargetKind>,
    raw: &str,
    interactive: bool,
) -> (r: ClassifyOutcome)
    requires
        !(directory_flag && file_flag),
    ensures
        r == classify_spec(directory_flag, file_flag, existing, raw@, interactive),
        directory_flag ==> r == ClassifyOutcome::Decided(TargetKind::Directory),
        file_flag ==> r == ClassifyOutcome::Decided(TargetKind::File),
        !directory_flag && !file_flag && existing is Some ==> r == ClassifyOutcome::Decided(
            existing->0,
        ),
        !directory_flag && !file_flag && existing is None && has_nonempty_extension(raw@) ==> r
            == ClassifyOutcome::Decided(TargetKind::File),
        !directory_flag && !file_flag && existing is None && !has_nonempty_extension(raw@)
            && ends_with_separator(raw@) ==> r == ClassifyOutcome::Decided(TargetKind::Directory),
        r == ClassifyOutcome::NeedsChoice <==> !directory_flag && !file_flag && existing is None
            && !has_nonempty_extension(raw@) && !ends_with_separator(raw@) && interactive,
{
    if directory_flag {
        return ClassifyOutcome::Decided(TargetKind::Directory);
    }
    if file_flag {
        return ClassifyOutcome::Decided(TargetKind::File);
    }
    match existing {
        Some(k) => {
            return ClassifyOutcome::Decided(k);
        },
        None => {},
    }
    if path_has_extension(raw) {
        return ClassifyOutcome::Decided(TargetKind::File);
    }
    if path_ends_with_separator(raw) {
        return ClassifyOutcome::Decided(TargetKind::Directory);
    }
    if interactive {
        return ClassifyOutcome::NeedsChoice;
    }
    ClassifyOutcome::Decided(TargetKind::File)
}

/// Maps the index returned by the binary interactive choice to a kind:
/// the first entry is file, the second directory.
pub fn selection_kind(choice: usize) -> (k: TargetKind)
    requires
        choice < 2,
    ensures
        choice == 0 ==> k == TargetKind::File,
        choice == 1 ==> k == TargetKind::Directory,
{
    if choice == 0 {
        TargetKind::File
    } else {
        TargetKind::Directory
    }
}

} // verus!
