//! Capture-group references in a replacement template.
//!
//! `$$` stands for a `$`; `${text}` refers to the group `text`; otherwise `$`
//! followed by letters, digits and `_` refers to the group so named (as many
//! of them as follow). A reference that reads as a `usize` (an optional `+`,
//! then decimal digits) is a group number. A `$` that starts no reference is
//! kept as it is.
use vstd::prelude::*;
use crate::filter::equal_str;

verus! {

/// A character that may stand in a reference written without braces.
pub open spec fn is_name_char(c: char) -> bool {
    ('0' <= c && c <= '9') || ('a' <= c && c <= 'z') || ('A' <= c && c <= 'Z') || c == '_'
}

/// Where the run of name characters that starts at `i` ends.
pub open spec fn name_end(t: Seq<char>, i: int) -> int
    decreases t.len() - i,
{
    if 0 <= i < t.len() && is_name_char(t[i]) {
        name_end(t, i + 1)
    } else {
        i
    }
}

/// The index of the first `}` at or after `i`, or the length of `t`.
pub open spec fn brace_end(t: Seq<char>, i: int) -> int
    decreases t.len() - i,
{
    if 0 <= i < t.len() && t[i] != '}' {
        brace_end(t, i + 1)
    } else {
        i
    }
}

/// The references of the template `t` from index `i` on, in order.
pub open spec fn refs_from(t: Seq<char>, i: int) -> Seq<Seq<char>>
    decreases t.len() - i,
{
    if i < 0 || i >= t.len() {
        seq![]
    } else if t[i] != '$' {
        refs_from(t, i + 1)
    } else if i + 1 < t.len() && t[i + 1] == '$' {
        refs_from(t, i + 2)
    } else if i + 1 < t.len() && t[i + 1] == '{' {
        let e = brace_end(t, i + 2);
        if i + 2 <= e < t.len() {
            seq![t.subrange(i + 2, e)] + refs_from(t, e + 1)
        } else {
            refs_from(t, i + 1)
        }
    } else {
        let e = name_end(t, i + 1);
        if i + 1 < e <= t.len() {
            seq![t.subrange(i + 1, e)] + refs_from(t, e)
        } else {
            refs_from(t, i + 1)
        }
    }
}

/// The value of a string of decimal digits.
pub open spec fn digits_value(s: Seq<char>) -> nat
    decreases s.len(),
{
    if s.len() == 0 {
        0
    } else {
        digits_value(s.drop_last()) * 10 + ((s.last() as u32 - '0' as u32) as nat)
    }
}

/// A non-empty string of decimal digits.
pub open spec fn all_digits(s: Seq<char>) -> bool {
    s.len() > 0 && forall|i: int| 0 <= i < s.len() ==> '0' <= #[trigger] s[i] && s[i] <= '9'
}

/// The number a reference reads as: an optional `+`, then digits whose value
/// fits a `usize`.
pub open spec fn number_of(s: Seq<char>) -> Option<nat> {
    let d = if s.len() > 0 && s[0] == '+' { s.drop_first() } else { s };
    if all_digits(d) && digits_value(d) <= usize::MAX {
        Some(digits_value(d))
    } else {
        None
    }
}

/// A reference resolves against the groups `names` (entry `i` is the name of
/// group `i`, if it has one): a number below the count of groups, or else the
/// name of some group.
pub open spec fn ref_resolves(r: Seq<char>, names: Seq<Option<Seq<char>>>) -> bool {
    match number_of(r) {
        Some(n) => n < names.len(),
        None => names.contains(Some(r)),
    }
}

/// Every reference of `refs` resolves.
pub open spec fn all_resolve(refs: Seq<Seq<char>>, names: Seq<Option<Seq<char>>>) -> bool {
    forall|k: int| 0 <= k < refs.len() ==> ref_resolves(#[trigger] refs[k], names)
}

/// Every reference of the template resolves against the groups `names`.
pub open spec fn template_resolves(t: Seq<char>, names: Seq<Option<Seq<char>>>) -> bool {
    all_resolve(refs_from(t, 0), names)
}

proof fn lemma_all_resolve_cons(x: Seq<char>, rest: Seq<Seq<char>>, names: Seq<Option<Seq<char>>>)
    ensures
        all_resolve(seq![x] + rest, names) == (ref_resolves(x, names) && all_resolve(rest, names)),
{
    let s = seq![x] + rest;
    assert(s[0] == x);
    assert forall|k: int| 0 <= k < rest.len() implies #[trigger] rest[k] == s[k + 1] by {}
    if ref_resolves(x, names) && all_resolve(rest, names) {
        assert forall|k: int| 0 <= k < s.len() implies ref_resolves(#[trigger] s[k], names) by {
            if k > 0 {
                assert(s[k] == rest[k - 1]);
            }
        }
    }
}

proof fn lemma_name_end_bounds(t: Seq<char>, i: int)
    requires
        0 <= i <= t.len(),
    ensures
        i <= name_end(t, i) <= t.len(),
    decreases t.len() - i,
{
    if i < t.len() && is_name_char(t[i]) {
        lemma_name_end_bounds(t, i + 1);
    }
}

proof fn lemma_brace_end_bounds(t: Seq<char>, i: int)
    requires
        0 <= i <= t.len(),
    ensures
        i <= brace_end(t, i) <= t.len(),
    decreases t.len() - i,
{
    if i < t.len() && t[i] != '}' {
        lemma_brace_end_bounds(t, i + 1);
    }
}

fn is_name_char_exec(c: char) -> (r: bool)
    ensures
        r == is_name_char(c),
{
    ('0' <= c && c <= '9') || ('a' <= c && c <= 'z') || ('A' <= c && c <= 'Z') || c == '_'
}

/// Where the run of name characters that starts at `i` ends.
fn name_end_exec(t: &str, n: usize, i: usize) -> (r: usize)
    requires
        n == t@.len(),
        i <= n,
    ensures
        r == name_end(t@, i as int),
{
    let mut j = i;
    let mut more = j < n && is_name_char_exec(t.get_char(j));
    while more
        invariant
            n == t@.len(),
            i <= j <= n,
            name_end(t@, j as int) == name_end(t@, i as int),
            more == (j < n && is_name_char(t@[j as int])),
        decreases n - j,
    {
        j += 1;
        more = j < n && is_name_char_exec(t.get_char(j));
    }
    j
}

/// The index of the first `}` at or after `i`, or `n`.
fn brace_end_exec(t: &str, n: usize, i: usize) -> (r: usize)
    requires
        n == t@.len(),
        i <= n,
    ensures
        r == brace_end(t@, i as int),
{
    let mut j = i;
    let mut more = j < n && t.get_char(j) != '}';
    while more
        invariant
            n == t@.len(),
            i <= j <= n,
            brace_end(t@, j as int) == brace_end(t@, i as int),
            more == (j < n && t@[j as int] != '}'),
        decreases n - j,
    {
        j += 1;
        more = j < n && t.get_char(j) != '}';
    }
    j
}

proof fn lemma_digits_prefix_le(s: Seq<char>, j: int)
    requires
        all_digits(s),
        0 < j <= s.len(),
    ensures
        digits_value(s.subrange(0, j)) <= digits_value(s),
    decreases s.len(),
{
    if j < s.len() {
        let p = s.drop_last();
        assert(all_digits(p)) by {
            assert forall|i: int| 0 <= i < p.len() implies '0' <= #[trigger] p[i] && p[i] <= '9' by {
                assert(p[i] == s[i]);
            }
        }
        lemma_digits_prefix_le(p, j);
        assert(s.subrange(0, j) =~= p.subrange(0, j));
        let dp = digits_value(p);
        assert(dp <= dp * 10) by (nonlinear_arith);
    } else {
        assert(s.subrange(0, j) =~= s);
    }
}

/// The number that `r` reads as, if it reads as one (see `number_of`).
fn number_of_exec(r: &str) -> (out: Option<usize>)
    ensures
        match number_of(r@) {
            Some(v) => out == Some(v as usize),
            None => out is None,
        },
{
    let n = r.unicode_len();
    let start: usize = if n > 0 && r.get_char(0) == '+' { 1 } else { 0 };
    let ghost d = if r@.len() > 0 && r@[0] == '+' { r@.drop_first() } else { r@ };
    assert(d =~= r@.subrange(start as int, n as int));
    if start == n {
        assert(d.len() == 0);
        assert(!all_digits(d));
        return None;
    }
    let mut value: usize = 0;
    let mut j = start;
    assert(r@.subrange(start as int, start as int) =~= Seq::<char>::empty());
    while j < n
        invariant
            n == r@.len(),
            start < n,
            start <= j <= n,
            d == r@.subrange(start as int, n as int),
            d == (if r@.len() > 0 && r@[0] == '+' { r@.drop_first() } else { r@ }),
            forall|k: int| start <= k < j ==> '0' <= #[trigger] r@[k] && r@[k] <= '9',
            value as nat == digits_value(r@.subrange(start as int, j as int)),
        decreases n - j,
    {
        let c = r.get_char(j);
        if !('0' <= c && c <= '9') {
            assert(d[j - start] == c);
            assert(!all_digits(d));
            return None;
        }
        let digit = (c as u32 - '0' as u32) as usize;
        let ghost next = r@.subrange(start as int, j + 1);
        assert(next.drop_last() =~= r@.subrange(start as int, j as int));
        assert(next.last() == c);
        assert(digits_value(next) == value * 10 + digit);
        if value > (usize::MAX - digit) / 10 {
            assert(value * 10 + digit > usize::MAX) by (nonlinear_arith)
                requires
                    value > (usize::MAX - digit) / 10,
                    digit <= 9,
            ;
            proof {
                if all_digits(d) {
                    assert(d.subrange(0, j + 1 - start) =~= next);
                    lemma_digits_prefix_le(d, j + 1 - start);
                }
            }
            return None;
        }
        assert(value * 10 + digit <= usize::MAX) by (nonlinear_arith)
            requires
                value <= (usize::MAX - digit) / 10,
                digit <= 9,
        ;
        value = value * 10 + digit;
        j += 1;
    }
    assert(r@.subrange(start as int, j as int) =~= d);
    Some(value)
}

/// Whether the reference `r` resolves against the groups `names`.
fn ref_resolves_exec(r: &str, names: &Vec<Option<String>>) -> (out: bool)
    ensures
        out == ref_resolves(r@, names.deep_view()),
{
    let ghost nv = names.deep_view();
    match number_of_exec(r) {
        Some(v) => v < names.len(),
        None => {
            let mut i: usize = 0;
            while i < names.len()
                invariant
                    nv == names.deep_view(),
                    number_of(r@) is None,
                    i <= nv.len(),
                    forall|k: int| 0 <= k < i ==> nv[k] != Some(r@),
                decreases names.len() - i,
            {
                assert(nv[i as int] == names@[i as int].deep_view());
                match &names[i] {
                    Some(name) => {
                        if equal_str(name.as_str(), r) {
                            assert(nv[i as int] == Some(r@));
                            assert(nv.contains(Some(r@)));
                            return true;
                        }
                    },
                    None => {},
                }
                i += 1;
            }
            false
        },
    }
}

/// Whether every reference of the template `t` resolves against the groups
/// `names` (entry `i` is the name of group `i`, if it has one).
pub fn template_resolves_exec(t: &str, names: &Vec<Option<String>>) -> (out: bool)
    ensures
        out == template_resolves(t@, names.deep_view()),
{
    let ghost nv = names.deep_view();
    let n = t.unicode_len();
    let mut i: usize = 0;
    while i < n
        invariant
            n == t@.len(),
            nv == names.deep_view(),
            i <= n,
            template_resolves(t@, nv) == all_resolve(refs_from(t@, i as int), nv),
        decreases n - i,
    {
        let c = t.get_char(i);
        if c != '$' {
            i += 1;
        } else if i + 1 < n && t.get_char(i + 1) == '$' {
            i += 2;
        } else if i + 1 < n && t.get_char(i + 1) == '{' {
            let e = brace_end_exec(t, n, i + 2);
            proof {
                lemma_brace_end_bounds(t@, i + 2);
            }
            if e < n {
                let x = t.substring_char(i + 2, e);
                proof {
                    lemma_all_resolve_cons(x@, refs_from(t@, e + 1), nv);
                }
                if !ref_resolves_exec(x, names) {
                    return false;
                }
                i = e + 1;
            } else {
                i += 1;
            }
        } else {
            let e = name_end_exec(t, n, i + 1);
            proof {
                lemma_name_end_bounds(t@, i + 1);
            }
            if e > i + 1 {
                let x = t.substring_char(i + 1, e);
                proof {
                    lemma_all_resolve_cons(x@, refs_from(t@, e as int), nv);
                }
                if !ref_resolves_exec(x, names) {
                    return false;
                }
                i = e;
            } else {
                i += 1;
            }
        }
    }
    true
}

} // verus!
