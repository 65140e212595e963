//! Which entries of a directory walk are taken.
use vstd::prelude::*;

verus! {

/// `suffix` ends `s`.
pub open spec fn has_suffix(s: Seq<char>, suffix: Seq<char>) -> bool {
    suffix.len() <= s.len() && s.subrange(s.len() - suffix.len(), s.len() as int) == suffix
}

/// A file name passes the extension filter: the filter is empty, or one of
/// its entries is a suffix of the name (no dot is required before it).
pub open spec fn passes_filter(name: Seq<char>, exts: Seq<Seq<char>>) -> bool {
    exts.len() == 0 || exists|i: int| 0 <= i < exts.len() && #[trigger] has_suffix(name, exts[i])
}

/// An extension filter entry neither starts with a dot nor holds a wildcard.
pub open spec fn valid_extension(e: Seq<char>) -> bool {
    !(e.len() > 0 && e[0] == '.') && !e.contains('*')
}

/// A directory is pruned when its name is exactly one of the ignored names.
pub open spec fn ignored_spec(name: Option<Seq<char>>, is_dir: bool, ignored: Seq<Seq<char>>) -> bool {
    is_dir && match name {
        Some(n) => ignored.contains(n),
        None => false,
    }
}

/// Whether `s` ends with `suffix`, compared character by character.
pub fn ends_with(s: &str, suffix: &str) -> (r: bool)
    ensures
        r == has_suffix(s@, suffix@),
{
    let n = s.unicode_len();
    let m = suffix.unicode_len();
    if m > n {
        return false;
    }
    let start: usize = n - m;
    let mut i: usize = 0;
    while i < m
        invariant
            n == s@.len(),
            m == suffix@.len(),
            start == n - m,
            i <= m,
            forall|j: int| 0 <= j < i ==> s@[start + j] == suffix@[j],
        decreases m - i,
    {
        if s.get_char(start + i) != suffix.get_char(i) {
            assert(s@.subrange(start as int, n as int)[i as int] != suffix@[i as int]);
            return false;
        }
        i += 1;
    }
    assert(s@.subrange(start as int, n as int) =~= suffix@);
    true
}

/// Whether `e` holds the character `c`.
fn contains_char(e: &str, c: char) -> (r: bool)
    ensures
        r == e@.contains(c),
{
    let n = e.unicode_len();
    let mut i: usize = 0;
    while i < n
        invariant
            n == e@.len(),
            i <= n,
            forall|j: int| 0 <= j < i ==> e@[j] != c,
        decreases n - i,
    {
        if e.get_char(i) == c {
            return true;
        }
        i += 1;
    }
    false
}

/// Whether a file name passes the extension filter. A name that is not
/// valid Unicode (`None`) never passes.
pub fn is_matching_file(entry: Option<&str>, file_extensions: &Vec<String>) -> (r: bool)
    ensures
        r == match entry {
            Some(name) => passes_filter(name@, file_extensions.deep_view()),
            None => false,
        },
{
    match entry {
        None => false,
        Some(name) => {
            let ghost exts = file_extensions.deep_view();
            if file_extensions.len() == 0 {
                return true;
            }
            let mut i: usize = 0;
            while i < file_extensions.len()
                invariant
                    entry == Some(name),
                    exts == file_extensions.deep_view(),
                    i <= exts.len(),
                    forall|j: int| 0 <= j < i ==> !#[trigger] has_suffix(name@, exts[j]),
                decreases file_extensions.len() - i,
            {
                assert(exts[i as int] == file_extensions@[i as int]@);
                if ends_with(name, file_extensions[i].as_str()) {
                    assert(has_suffix(name@, exts[i as int]));
                    return true;
                }
                i += 1;
            }
            false
        },
    }
}

/// Whether every filter entry is valid: none starts with `.` and none holds `*`.
pub fn validate_file_extensions(file_extensions: &Vec<String>) -> (r: bool)
    ensures
        r == forall|i: int|
            0 <= i < file_extensions@.len() ==> valid_extension(#[trigger] file_extensions@[i]@),
{
    let mut i: usize = 0;
    while i < file_extensions.len()
        invariant
            i <= file_extensions@.len(),
            forall|j: int| 0 <= j < i ==> valid_extension(#[trigger] file_extensions@[j]@),
        decreases file_extensions.len() - i,
    {
        let e = file_extensions[i].as_str();
        let starts_with_dot = e.unicode_len() > 0 && e.get_char(0) == '.';
        if starts_with_dot || contains_char(e, '*') {
            return false;
        }
        i += 1;
    }
    true
}

/// Whether a walk prunes an entry: it is a directory whose name is exactly
/// one of `ignored_dirs`. A name that is not valid Unicode is never ignored.
pub fn is_directory_ignored(name: Option<&str>, is_dir: bool, ignored_dirs: &Vec<String>) -> (r: bool)
    ensures
        r == ignored_spec(
            match name {
                Some(n) => Some(n@),
                None => None,
            },
            is_dir,
            ignored_dirs.deep_view(),
        ),
{
    if !is_dir {
        return false;
    }
    match name {
        None => false,
        Some(n) => {
            let ghost dv = ignored_dirs.deep_view();
            let mut i: usize = 0;
            while i < ignored_dirs.len()
                invariant
                    is_dir,
                    name == Some(n),
                    dv == ignored_dirs.deep_view(),
                    i <= dv.len(),
                    forall|j: int| 0 <= j < i ==> dv[j] != n@,
                decreases ignored_dirs.len() - i,
            {
                assert(dv[i as int] == ignored_dirs@[i as int]@);
                if equal_str(ignored_dirs[i].as_str(), n) {
                    assert(dv[i as int] == n@);
                    assert(dv.contains(n@));
                    return true;
                }
                i += 1;
            }
            false
        },
    }
}

/// Whether two strings hold the same characters.
pub fn equal_str(a: &str, b: &str) -> (r: bool)
    ensures
        r == (a@ == b@),
{
    let n = a.unicode_len();
    if n != b.unicode_len() {
        return false;
    }
    let mut i: usize = 0;
    while i < n
        invariant
            n == a@.len(),
            n == b@.len(),
            i <= n,
            forall|j: int| 0 <= j < i ==> a@[j] == b@[j],
        decreases n - i,
    {
        if a.get_char(i) != b.get_char(i) {
            return false;
        }
        i += 1;
    }
    assert(a@ =~= b@);
    true
}

} // verus!
