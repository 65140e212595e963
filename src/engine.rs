//! What becomes of one file, and how a run's counters move.
use vstd::prelude::*;
use crate::pattern::{Pattern, search_and_replace};

verus! {

/// Each line with every match of `p` replaced by `replace`.
pub open spec fn replaced_lines(lines: Seq<Seq<char>>, p: Pattern, replace: Seq<char>) -> Seq<Seq<char>> {
    Seq::new(lines.len(), |i: int| p.replaced(lines[i], replace))
}

/// Some line holds a match of `p`.
pub open spec fn any_line_matches(lines: Seq<Seq<char>>, p: Pattern) -> bool {
    exists|i: int| 0 <= i < lines.len() && #[trigger] p.matches(lines[i])
}

/// Rewrites each line (terminators included, as read) and tells whether any
/// line matched.
pub fn process_lines(lines: &Vec<String>, pattern: &Pattern, replace: &str) -> (r: (Vec<String>, bool))
    ensures
        r.0.deep_view() == replaced_lines(lines.deep_view(), *pattern, replace@),
        r.1 == any_line_matches(lines.deep_view(), *pattern),
{
    let ghost lv = lines.deep_view();
    let mut out: Vec<String> = Vec::new();
    let mut found: bool = false;
    let mut i: usize = 0;
    while i < lines.len()
        invariant
            lv == lines.deep_view(),
            i <= lv.len(),
            out.deep_view() == replaced_lines(lv.subrange(0, i as int), *pattern, replace@),
            found == any_line_matches(lv.subrange(0, i as int), *pattern),
        decreases lines.len() - i,
    {
        let ghost before = found;
        let line = search_and_replace(lines[i].as_str(), pattern, replace, &mut found);
        proof {
            let pre = lv.subrange(0, i as int);
            let post = lv.subrange(0, i + 1);
            assert(lv[i as int] == lines@[i as int]@);
            assert(post =~= pre.push(lv[i as int]));
            if found {
                if !before {
                    assert(pattern.matches(post[i as int]));
                } else {
                    let k = choose|k: int| 0 <= k < pre.len() && #[trigger] pattern.matches(pre[k]);
                    assert(pattern.matches(post[k]));
                }
            } else {
                assert forall|k: int| 0 <= k < post.len() implies !#[trigger] pattern.matches(post[k]) by {
                    if k < i {
                        assert(post[k] == pre[k]);
                    }
                }
            }
        }
        let ghost old_out = out.deep_view();
        let ghost old_view = out@;
        out.push(line);
        proof {
            let want = replaced_lines(lv.subrange(0, i + 1), *pattern, replace@);
            assert(old_out.len() == old_view.len());
            assert(out@ == old_view.push(line));
            assert(want.len() == i + 1);
            assert(out@.len() == i + 1);
            assert forall|k: int| 0 <= k < want.len() implies #[trigger] out.deep_view()[k] == want[k] by {
                assert(out.deep_view()[k] == out@[k]@);
                if k < i {
                    assert(out@[k] == old_view[k]);
                    assert(old_out[k] == old_view[k]@);
                    assert(old_out[k] == want[k]);
                }
            }
            assert(out.deep_view() =~= want);
        }
        i += 1;
    }
    assert(lv.subrange(0, i as int) =~= lv);
    (out, found)
}

/// What a file's fate is once its lines have been read.
pub enum FilePlan {
    /// No line matched: the file is left as it is.
    Unchanged,
    /// Some line matched, in a dry run: the file is reported, not written.
    ReportOnly,
    /// Some line matched: the file is to be written anew with these lines.
    Rewrite(Vec<String>),
}

/// How the processing of one file ended.
#[derive(Debug, Clone, Copy, PartialEq, Eq, Structural)]
pub enum FileOutcome {
    /// No line matched.
    Unchanged,
    /// Some line matched, and the run was a dry run.
    MatchedDryRun,
    /// Some line matched and the file was written anew.
    Edited,
    /// The file could not be opened or read.
    ReadFailed,
    /// Some line matched but the file could not be written anew.
    WriteFailed,
}

/// Decides a file's fate from its lines: left alone where no line matches,
/// reported only in a dry run, otherwise rewritten with every line replaced.
pub fn plan_file(lines: &Vec<String>, pattern: &Pattern, replace: &str, dry_run: bool) -> (r: FilePlan)
    ensures
        !any_line_matches(lines.deep_view(), *pattern) ==> r is Unchanged,
        any_line_matches(lines.deep_view(), *pattern) && dry_run ==> r is ReportOnly,
        any_line_matches(lines.deep_view(), *pattern) && !dry_run ==> (r matches FilePlan::Rewrite(v)
            && v.deep_view() == replaced_lines(lines.deep_view(), *pattern, replace@)),
{
    let (new_lines, found) = process_lines(lines, pattern, replace);
    if !found {
        FilePlan::Unchanged
    } else if dry_run {
        FilePlan::ReportOnly
    } else {
        FilePlan::Rewrite(new_lines)
    }
}

impl FilePlan {
    /// The outcome once the plan has been carried out; `written` tells
    /// whether the new content reached the disk (it matters for `Rewrite` only).
    pub fn outcome(&self, written: bool) -> (r: FileOutcome)
        ensures
            self is Unchanged ==> r == FileOutcome::Unchanged,
            self is ReportOnly ==> r == FileOutcome::MatchedDryRun,
            self is Rewrite ==> r == (if written { FileOutcome::Edited } else { FileOutcome::WriteFailed }),
    {
        match self {
            FilePlan::Unchanged => FileOutcome::Unchanged,
            FilePlan::ReportOnly => FileOutcome::MatchedDryRun,
            FilePlan::Rewrite(_) => if written {
                FileOutcome::Edited
            } else {
                FileOutcome::WriteFailed
            },
        }
    }
}

} // verus!
