//! What holds of every run, proved over the models of the other modules.
use vstd::prelude::*;
use crate::engine::{FileOutcome, any_line_matches, replaced_lines};
use crate::filter::ignored_spec;
use crate::pattern::{Pattern, contains_text, occurs_at, replace_literal};
use crate::summary::{Counts, run_counts};

verus! {

/// A pattern that matches no line of a file leaves every line as it was.
pub proof fn lemma_absent_pattern_keeps_lines(lines: Seq<Seq<char>>, p: Pattern, replace: Seq<char>)
    requires
        !any_line_matches(lines, p),
    ensures
        replaced_lines(lines, p, replace) == lines,
{
    assert forall|i: int| 0 <= i < lines.len() implies #[trigger] replaced_lines(lines, p, replace)[i]
        == lines[i] by {
        assert(!p.matches(lines[i]));
    }
    assert(replaced_lines(lines, p, replace) =~= lines);
}

/// A run in which every file came out unchanged leaves every counter at zero.
pub proof fn lemma_unchanged_run_counts_nothing(outcomes: Seq<FileOutcome>)
    requires
        forall|i: int| 0 <= i < outcomes.len() ==> outcomes[i] == FileOutcome::Unchanged,
    ensures
        run_counts(Counts::zero(), outcomes) == Counts::zero(),
    decreases outcomes.len(),
{
    if outcomes.len() > 0 {
        lemma_unchanged_run_counts_nothing(outcomes.drop_last());
    }
}

/// Over any run, no more files are counted as edited than as matched.
pub proof fn lemma_run_edits_within_matches(start: Counts, outcomes: Seq<FileOutcome>)
    requires
        start.wf(),
    ensures
        run_counts(start, outcomes).wf(),
    decreases outcomes.len(),
{
    if outcomes.len() > 0 {
        lemma_run_edits_within_matches(start, outcomes.drop_last());
    }
}

/// In a dry run no file is written: where no outcome is `Edited` or
/// `WriteFailed`, the edited counter never moves, and each file found to
/// match raises the match counter (until it reaches the largest `usize`).
pub proof fn lemma_dry_run_edits_nothing(start: Counts, outcomes: Seq<FileOutcome>)
    requires
        forall|i: int|
            0 <= i < outcomes.len() ==> outcomes[i] != FileOutcome::Edited && outcomes[i]
                != FileOutcome::WriteFailed,
    ensures
        run_counts(start, outcomes).edited == start.edited,
        run_counts(start, outcomes).matched >= start.matched,
        (exists|i: int| 0 <= i < outcomes.len() && outcomes[i] == FileOutcome::MatchedDryRun)
            && start.matched < usize::MAX ==> run_counts(start, outcomes).matched > start.matched,
    decreases outcomes.len(),
{
    if outcomes.len() > 0 {
        let pre = outcomes.drop_last();
        lemma_dry_run_edits_nothing(start, pre);
        if exists|i: int| 0 <= i < outcomes.len() && outcomes[i] == FileOutcome::MatchedDryRun {
            let w = choose|i: int| 0 <= i < outcomes.len() && outcomes[i] == FileOutcome::MatchedDryRun;
            if w < pre.len() {
                assert(pre[w] == FileOutcome::MatchedDryRun);
            } else {
                assert(outcomes.last() == FileOutcome::MatchedDryRun);
            }
        }
    }
}

/// The replacement is not empty and none of its characters occurs in `s`.
pub open spec fn disjoint_replacement(s: Seq<char>, r: Seq<char>) -> bool {
    r.len() > 0 && forall|i: int| 0 <= i < r.len() ==> !s.contains(#[trigger] r[i])
}

/// A prefix of a replaced text made of characters of `s` holds no
/// replacement, so it is also a prefix of the original text.
proof fn lemma_search_chars_prefix(t: Seq<char>, s: Seq<char>, r: Seq<char>, n: int)
    requires
        s.len() > 0,
        disjoint_replacement(s, r),
        0 <= n <= replace_literal(t, s, r).len(),
        forall|i: int| 0 <= i < n ==> s.contains(#[trigger] replace_literal(t, s, r)[i]),
    ensures
        n <= t.len(),
        forall|i: int| 0 <= i < n ==> #[trigger] replace_literal(t, s, r)[i] == t[i],
    decreases t.len(),
{
    let res = replace_literal(t, s, r);
    if t.len() < s.len() {
    } else if t.subrange(0, s.len() as int) == s {
        if n > 0 {
            assert(res[0] == r[0]);
            assert(s.contains(res[0]));
            assert(false);
        }
    } else if n > 0 {
        let tail = t.drop_first();
        let rest = replace_literal(tail, s, r);
        assert(res == seq![t[0]] + rest);
        assert forall|i: int| 0 <= i < n - 1 implies s.contains(#[trigger] rest[i]) by {
            assert(res[i + 1] == rest[i]);
        }
        lemma_search_chars_prefix(tail, s, r, n - 1);
        assert forall|i: int| 0 <= i < n implies #[trigger] res[i] == t[i] by {
            if i > 0 {
                assert(res[i] == rest[i - 1]);
            }
        }
    }
}

/// Replacing every occurrence of `s` by a replacement that shares no
/// character with `s` leaves no occurrence of `s`.
pub proof fn lemma_replaced_literal_free_of_search(t: Seq<char>, s: Seq<char>, r: Seq<char>)
    requires
        s.len() > 0,
        disjoint_replacement(s, r),
    ensures
        !contains_text(replace_literal(t, s, r), s),
    decreases t.len(),
{
    let res = replace_literal(t, s, r);
    let m = s.len() as int;
    if t.len() < s.len() {
        assert forall|k: int| !#[trigger] occurs_at(res, s, k) by {}
    } else if t.subrange(0, m) == s {
        let tail = t.subrange(m, t.len() as int);
        let rest = replace_literal(tail, s, r);
        lemma_replaced_literal_free_of_search(tail, s, r);
        assert(res == r + rest);
        assert forall|k: int| !#[trigger] occurs_at(res, s, k) by {
            if occurs_at(res, s, k) {
                if k < r.len() {
                    assert(res.subrange(k, k + m)[0] == s[0]);
                    assert(res[k] == r[k]);
                    assert(s.contains(r[k]));
                } else {
                    assert(rest.subrange(k - r.len(), k - r.len() + m) =~= res.subrange(k, k + m));
                    assert(occurs_at(rest, s, k - r.len()));
                }
            }
        }
    } else {
        let tail = t.drop_first();
        let rest = replace_literal(tail, s, r);
        lemma_replaced_literal_free_of_search(tail, s, r);
        assert(res == seq![t[0]] + rest);
        assert forall|k: int| !#[trigger] occurs_at(res, s, k) by {
            if occurs_at(res, s, k) {
                if k == 0 {
                    assert forall|i: int| 0 <= i < m - 1 implies s.contains(#[trigger] rest[i]) by {
                        assert(res[i + 1] == rest[i]);
                        assert(res.subrange(0, m)[i + 1] == s[i + 1]);
                    }
                    lemma_search_chars_prefix(tail, s, r, m - 1);
                    assert forall|i: int| 0 <= i < m implies #[trigger] t.subrange(0, m)[i] == s[i] by {
                        assert(res.subrange(0, m)[i] == s[i]);
                        if i > 0 {
                            assert(res[i] == rest[i - 1]);
                            assert(rest[i - 1] == tail[i - 1]);
                        }
                    }
                    assert(t.subrange(0, m) =~= s);
                } else {
                    assert(rest.subrange(k - 1, k - 1 + m) =~= res.subrange(k, k + m));
                    assert(occurs_at(rest, s, k - 1));
                }
            }
        }
    }
}

/// Running a literal search and replace a second time finds no match, where
/// the replacement is not empty and shares no character with the search text.
pub proof fn lemma_literal_reapply_finds_nothing(lines: Seq<Seq<char>>, text: String, replace: Seq<char>)
    requires
        text@.len() > 0,
        disjoint_replacement(text@, replace),
    ensures
        !any_line_matches(
            replaced_lines(lines, Pattern::Literal(text), replace),
            Pattern::Literal(text),
        ),
{
    let p = Pattern::Literal(text);
    let out = replaced_lines(lines, p, replace);
    assert forall|i: int| 0 <= i < out.len() implies !#[trigger] p.matches(out[i]) by {
        if p.matches(lines[i]) {
            lemma_replaced_literal_free_of_search(lines[i], text@, replace);
        }
    }
}

/// A directory whose name is one of the ignored names is pruned.
pub proof fn lemma_ignored_directory_pruned(name: Seq<char>, ignored: Seq<Seq<char>>)
    requires
        ignored.contains(name),
    ensures
        ignored_spec(Some(name), true, ignored),
{
}

} // verus!
