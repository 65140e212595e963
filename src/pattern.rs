//! Search patterns, and what they do to one line.
use vstd::prelude::*;
use regex::Regex;
use crate::template::{template_resolves, template_resolves_exec};

verus! {

#[verifier::external_type_specification]
#[verifier::external_body]
pub struct ExRegex(regex::Regex);

#[verifier::external_type_specification]
#[verifier::external_body]
pub struct ExRegexError(regex::Error);

/// Whether `Regex::new` accepts `pattern`.
pub uninterp spec fn regex_compiles(pattern: Seq<char>) -> bool;

/// Whether the regex compiled from `pattern` matches anywhere in `haystack`.
pub uninterp spec fn regex_matches(pattern: Seq<char>, haystack: Seq<char>) -> bool;

/// What `replace_all` gives for the regex compiled from `pattern`, with the
/// replacement `template` (where `$name` and `$N` stand for capture groups).
pub uninterp spec fn regex_replaced(pattern: Seq<char>, haystack: Seq<char>, template: Seq<char>) -> Seq<char>;

/// The groups of the regex compiled from `pattern`, by index: each one's
/// name, or `None` for an unnamed group.
pub uninterp spec fn regex_group_names(pattern: Seq<char>) -> Seq<Option<Seq<char>>>;

/// Why a pattern could not be built.
#[derive(Debug, Clone, Copy, PartialEq, Eq, Structural)]
pub enum PatternError {
    /// The regular expression is malformed, or too large to compile.
    InvalidRegex,
    /// The replacement template refers to a group that the regex lacks.
    UnresolvedGroup,
}

/// A compiled regular expression together with the text it was compiled
/// from. Its fields are private and `new` is its only constructor, so the
/// expression held is always the one compiled from `source`.
pub struct CompiledRegex {
    re: Regex,
    source: String,
}

/// Relies on regex::Regex::new: it succeeds exactly on the patterns that it
/// accepts, which depends on the pattern text alone (default size limit).
#[verifier::external_body]
fn regex_new(source: &str) -> (r: Result<Regex, regex::Error>)
    ensures
        r is Ok <==> regex_compiles(source@),
{
    Regex::new(source)
}

/// Relies on regex::Regex::is_match: whether the expression matches
/// anywhere in the haystack. `c.re` was compiled from `c.source`.
#[verifier::external_body]
fn regex_is_match(c: &CompiledRegex, haystack: &str) -> (r: bool)
    ensures
        r == regex_matches(c.source(), haystack@),
{
    c.re.is_match(haystack)
}

/// Relies on regex::Regex::replace_all with a `&str` template: every
/// non-overlapping match is replaced, expanding `$name` / `$N`; where no match
/// is found the haystack comes back unchanged (as its documentation says).
/// `c.re` was compiled from `c.source`.
#[verifier::external_body]
fn regex_replace_all(c: &CompiledRegex, haystack: &str, template: &str) -> (r: String)
    ensures
        r@ == regex_replaced(c.source(), haystack@, template@),
        !regex_matches(c.source(), haystack@) ==> r@ == haystack@,
{
    c.re.replace_all(haystack, template).into_owned()
}

/// Relies on regex::Regex::capture_names: one entry per group in index
/// order, holding its name if it has one; there is always at least the
/// group of the whole match. `c.re` was compiled from `c.source`.
#[verifier::external_body]
fn regex_capture_names(c: &CompiledRegex) -> (r: Vec<Option<String>>)
    ensures
        r.deep_view() == regex_group_names(c.source()),
        r@.len() >= 1,
{
    c.re.capture_names().map(|n| n.map(|s| s.to_string())).collect()
}

impl CompiledRegex {
    /// The text the expression was compiled from.
    pub closed spec fn source(&self) -> Seq<char> {
        self.source@
    }

    /// Compiles `source`; fails with `InvalidRegex` exactly when the regex
    /// crate refuses it.
    pub fn new(source: &str) -> (r: Result<CompiledRegex, PatternError>)
        ensures
            r is Ok <==> regex_compiles(source@),
            r is Ok ==> r->Ok_0.source() == source@,
            r is Err ==> r->Err_0 == PatternError::InvalidRegex,
    {
        match regex_new(source) {
            Ok(re) => Ok(CompiledRegex { re, source: String::from_str(source) }),
            Err(_) => Err(PatternError::InvalidRegex),
        }
    }

    /// Whether every group reference of `template` (`$name`, `${name}`,
    /// `$N`) names a group of this expression.
    pub fn resolves(&self, template: &str) -> (r: bool)
        ensures
            r == template_resolves(template@, regex_group_names(self.source())),
    {
        let names = regex_capture_names(self);
        template_resolves_exec(template, &names)
    }

    /// The text the expression was compiled from.
    pub fn as_str(&self) -> (r: &str)
        ensures
            r@ == self.source(),
    {
        self.source.as_str()
    }
}

/// `s` occurs in `t` starting at index `k`.
pub open spec fn occurs_at(t: Seq<char>, s: Seq<char>, k: int) -> bool {
    0 <= k && k + s.len() <= t.len() && t.subrange(k, k + s.len()) == s
}

/// `s` occurs somewhere in `t`.
pub open spec fn contains_text(t: Seq<char>, s: Seq<char>) -> bool {
    exists|k: int| #[trigger] occurs_at(t, s, k)
}

/// Every occurrence of `s` in `t` replaced by `r`, scanning from the left and
/// resuming after each replaced occurrence (non-overlapping, leftmost first).
pub open spec fn replace_literal(t: Seq<char>, s: Seq<char>, r: Seq<char>) -> Seq<char>
    decreases t.len(),
{
    if s.len() == 0 || t.len() < s.len() {
        t
    } else if t.subrange(0, s.len() as int) == s {
        r + replace_literal(t.subrange(s.len() as int, t.len() as int), s, r)
    } else {
        seq![t[0]] + replace_literal(t.drop_first(), s, r)
    }
}

/// A search pattern: a literal text or a regular expression.
pub enum Pattern {
    /// Matches where the text occurs; an empty text matches nothing.
    Literal(String),
    /// Matches where the expression matches.
    Regex(CompiledRegex),
}

impl Pattern {
    /// Whether the pattern matches somewhere in `line`.
    pub open spec fn matches(&self, line: Seq<char>) -> bool {
        match self {
            Pattern::Literal(s) => s@.len() > 0 && contains_text(line, s@),
            Pattern::Regex(c) => regex_matches(c.source(), line),
        }
    }

    /// `line` with every match replaced; unchanged where nothing matches.
    pub open spec fn replaced(&self, line: Seq<char>, replace: Seq<char>) -> Seq<char> {
        if !self.matches(line) {
            line
        } else {
            match self {
                Pattern::Literal(s) => replace_literal(line, s@, replace),
                Pattern::Regex(c) => regex_replaced(c.source(), line, replace),
            }
        }
    }

    /// A pattern that matches the text `text` literally.
    pub fn literal(text: &str) -> (r: Pattern)
        ensures
            r matches Pattern::Literal(s) && s@ == text@,
    {
        Pattern::Literal(String::from_str(text))
    }

    /// The regular expression `search` paired with the replacement template
    /// `replace`: fails with `InvalidRegex` where the expression does not
    /// compile, and with `UnresolvedGroup` where the template refers to a
    /// group that the expression lacks.
    pub fn compile(search: &str, replace: &str) -> (r: Result<Pattern, PatternError>)
        ensures
            !regex_compiles(search@) ==> r == Err::<Pattern, PatternError>(PatternError::InvalidRegex),
            regex_compiles(search@) && !template_resolves(replace@, regex_group_names(search@))
                ==> r == Err::<Pattern, PatternError>(PatternError::UnresolvedGroup),
            regex_compiles(search@) && template_resolves(replace@, regex_group_names(search@))
                ==> (r matches Ok(Pattern::Regex(c)) && c.source() == search@),
    {
        match CompiledRegex::new(search) {
            Err(e) => Err(e),
            Ok(c) => if c.resolves(replace) {
                Ok(Pattern::Regex(c))
            } else {
                Err(PatternError::UnresolvedGroup)
            },
        }
    }

    /// A pattern that is the regular expression `source`; fails with
    /// `InvalidRegex` exactly when the expression does not compile.
    pub fn regex(source: &str) -> (r: Result<Pattern, PatternError>)
        ensures
            r is Ok <==> regex_compiles(source@),
            r matches Ok(Pattern::Regex(c)) ==> c.source() == source@,
            r is Ok ==> r->Ok_0 is Regex,
            r is Err ==> r->Err_0 == PatternError::InvalidRegex,
    {
        match CompiledRegex::new(source) {
            Ok(c) => Ok(Pattern::Regex(c)),
            Err(e) => Err(e),
        }
    }
}

/// Whether `s` occurs in `t` at index `k`.
fn occurs_at_exec(t: &str, s: &str, k: usize) -> (r: bool)
    requires
        k <= t@.len(),
    ensures
        r == occurs_at(t@, s@, k as int),
{
    let n = t.unicode_len();
    let m = s.unicode_len();
    if m > n - k {
        return false;
    }
    let mut j: usize = 0;
    while j < m
        invariant
            n == t@.len(),
            m == s@.len(),
            k + m <= n,
            j <= m,
            forall|i: int| 0 <= i < j ==> t@[k + i] == s@[i],
        decreases m - j,
    {
        if t.get_char(k + j) != s.get_char(j) {
            assert(t@.subrange(k as int, k + m)[j as int] != s@[j as int]);
            return false;
        }
        j += 1;
    }
    assert(t@.subrange(k as int, k + m) =~= s@);
    true
}

/// Whether the non-empty text `s` occurs in `t`.
fn contains_literal(t: &str, s: &str) -> (r: bool)
    ensures
        r == (s@.len() > 0 && contains_text(t@, s@)),
{
    let n = t.unicode_len();
    let m = s.unicode_len();
    if m == 0 {
        return false;
    }
    if m > n {
        assert(forall|k: int| !#[trigger] occurs_at(t@, s@, k));
        return false;
    }
    let mut k: usize = 0;
    while k <= n - m
        invariant
            n == t@.len(),
            m == s@.len(),
            0 < m <= n,
            k <= n - m + 1,
            forall|i: int| 0 <= i < k ==> !#[trigger] occurs_at(t@, s@, i),
        decreases n - m + 1 - k,
    {
        if occurs_at_exec(t, s, k) {
            return true;
        }
        k += 1;
    }
    assert(forall|i: int| !#[trigger] occurs_at(t@, s@, i));
    false
}

/// Every occurrence of the non-empty text `s` in `t` replaced by `r`.
fn replace_all_literal(t: &str, s: &str, r: &str) -> (out: String)
    requires
        s@.len() > 0,
    ensures
        out@ == replace_literal(t@, s@, r@),
{
    let n = t.unicode_len();
    let m = s.unicode_len();
    let mut out = String::new();
    let mut i: usize = 0;
    assert(t@.subrange(0, n as int) =~= t@);
    assert(out@ + replace_literal(t@, s@, r@) =~= replace_literal(t@, s@, r@));
    while i < n
        invariant
            n == t@.len(),
            m == s@.len(),
            m > 0,
            i <= n,
            out@ + replace_literal(t@.subrange(i as int, n as int), s@, r@) == replace_literal(t@, s@, r@),
        decreases n - i,
    {
        let ghost u = t@.subrange(i as int, n as int);
        if n - i < m {
            out.append(t.substring_char(i, n));
            assert(out@ == replace_literal(t@, s@, r@));
            i = n;
            assert(t@.subrange(i as int, n as int) =~= Seq::<char>::empty());
        } else if occurs_at_exec(t, s, i) {
            assert(u.subrange(0, m as int) =~= t@.subrange(i as int, i + m));
            assert(u.subrange(m as int, u.len() as int) =~= t@.subrange(i + m, n as int));
            assert(out@ + r@ + replace_literal(t@.subrange(i + m, n as int), s@, r@)
                =~= out@ + replace_literal(u, s@, r@));
            out.append(r);
            i = i + m;
        } else {
            assert(u.subrange(0, m as int) =~= t@.subrange(i as int, i + m));
            assert(u.drop_first() =~= t@.subrange(i + 1, n as int));
            let c = t.substring_char(i, i + 1);
            assert(c@ =~= seq![u[0]]);
            assert(out@ + c@ + replace_literal(t@.subrange(i + 1, n as int), s@, r@)
                =~= out@ + replace_literal(u, s@, r@));
            out.append(c);
            i = i + 1;
        }
    }
    assert(t@.subrange(n as int, n as int) =~= Seq::<char>::empty());
    out
}

/// Replaces every match of `pattern` in `line` with `replace` (for a regex,
/// a template in which `$name` / `$N` stand for capture groups), and sets
/// `found_and_replaced` where the pattern matched; it is never cleared.
pub fn search_and_replace(
    line: &str,
    pattern: &Pattern,
    replace: &str,
    found_and_replaced: &mut bool,
) -> (r: String)
    ensures
        *final(found_and_replaced) == (*old(found_and_replaced) || pattern.matches(line@)),
        r@ == pattern.replaced(line@, replace@),
{
    let matched = match pattern {
        Pattern::Literal(text) => contains_literal(line, text.as_str()),
        Pattern::Regex(c) => regex_is_match(c, line),
    };
    if !matched {
        return String::from_str(line);
    }
    *found_and_replaced = true;
    match pattern {
        Pattern::Literal(text) => replace_all_literal(line, text.as_str(), replace),
        Pattern::Regex(c) => regex_replace_all(c, line, replace),
    }
}

} // verus!
