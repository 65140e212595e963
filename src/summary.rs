//! The counters of one run.
use vstd::prelude::*;
use crate::engine::FileOutcome;

verus! {

/// One more, unless the count already stands at the largest `usize`.
pub open spec fn bump(n: nat) -> nat {
    if n < usize::MAX { n + 1 } else { n }
}

/// The four counters of a run, as numbers.
pub struct Counts {
    /// Files in which some line matched.
    pub matched: nat,
    /// Files written anew.
    pub edited: nat,
    /// Files that could not be read or written.
    pub failed: nat,
    /// Directory entries that could not be read.
    pub dir_errors: nat,
}

impl Counts {
    /// All four counters at zero.
    pub open spec fn zero() -> Counts {
        Counts { matched: 0, edited: 0, failed: 0, dir_errors: 0 }
    }

    /// A file is written anew only after a match was found in it.
    pub open spec fn wf(self) -> bool {
        self.edited <= self.matched
    }

    /// The counters once one file's outcome has been recorded.
    pub open spec fn after(self, o: FileOutcome) -> Counts {
        match o {
            FileOutcome::Unchanged => self,
            FileOutcome::MatchedDryRun => Counts { matched: bump(self.matched), ..self },
            FileOutcome::Edited => Counts { matched: bump(self.matched), edited: bump(self.edited), ..self },
            FileOutcome::ReadFailed => Counts { failed: bump(self.failed), ..self },
            FileOutcome::WriteFailed => Counts { matched: bump(self.matched), failed: bump(self.failed), ..self },
        }
    }

    /// The counters once a directory read error has been recorded.
    pub open spec fn after_dir_error(self) -> Counts {
        Counts { dir_errors: bump(self.dir_errors), ..self }
    }
}

/// The counters after the outcomes of a run's files, recorded in order from
/// `start`.
pub open spec fn run_counts(start: Counts, outcomes: Seq<FileOutcome>) -> Counts
    decreases outcomes.len(),
{
    if outcomes.len() == 0 {
        start
    } else {
        run_counts(start, outcomes.drop_last()).after(outcomes.last())
    }
}

/// The counters of one run: each run owns its own summary.
pub struct RunSummary {
    files_matched: usize,
    files_edited: usize,
    files_failed: usize,
    dir_read_errors: usize,
}

impl View for RunSummary {
    type V = Counts;

    closed spec fn view(&self) -> Counts {
        Counts {
            matched: self.files_matched as nat,
            edited: self.files_edited as nat,
            failed: self.files_failed as nat,
            dir_errors: self.dir_read_errors as nat,
        }
    }
}

/// One more, unless `n` is already the largest `usize`.
fn bump_exec(n: usize) -> (r: usize)
    ensures
        r as nat == bump(n as nat),
{
    if n < usize::MAX { n + 1 } else { n }
}

impl RunSummary {
    /// No more files are counted as edited than as matched.
    #[verifier::type_invariant]
    spec fn inv(&self) -> bool {
        self.files_edited <= self.files_matched
    }

    /// A summary with every counter at zero.
    pub fn new() -> (r: RunSummary)
        ensures
            r@ == Counts::zero(),
            r@.wf(),
    {
        RunSummary { files_matched: 0, files_edited: 0, files_failed: 0, dir_read_errors: 0 }
    }

    /// Counts one file's outcome.
    pub fn record(&mut self, outcome: FileOutcome)
        ensures
            final(self)@ == old(self)@.after(outcome),
            final(self)@.wf(),
    {
        proof {
            use_type_invariant(&*self);
        }
        match outcome {
            FileOutcome::Unchanged => {},
            FileOutcome::MatchedDryRun => {
                self.files_matched = bump_exec(self.files_matched);
            },
            FileOutcome::Edited => {
                self.files_matched = bump_exec(self.files_matched);
                self.files_edited = bump_exec(self.files_edited);
            },
            FileOutcome::ReadFailed => {
                self.files_failed = bump_exec(self.files_failed);
            },
            FileOutcome::WriteFailed => {
                self.files_matched = bump_exec(self.files_matched);
                self.files_failed = bump_exec(self.files_failed);
            },
        }
    }

    /// Counts one directory entry that could not be read.
    pub fn record_dir_error(&mut self)
        ensures
            final(self)@ == old(self)@.after_dir_error(),
            final(self)@.wf(),
    {
        proof {
            use_type_invariant(&*self);
        }
        self.dir_read_errors = bump_exec(self.dir_read_errors);
    }

    /// Files in which some line matched.
    pub fn files_matched(&self) -> (r: usize)
        ensures
            r as nat == self@.matched,
    {
        self.files_matched
    }

    /// Files written anew.
    pub fn files_edited(&self) -> (r: usize)
        ensures
            r as nat == self@.edited,
    {
        self.files_edited
    }

    /// Files that could not be read or written.
    pub fn files_failed(&self) -> (r: usize)
        ensures
            r as nat == self@.failed,
    {
        self.files_failed
    }

    /// Directory entries that could not be read.
    pub fn dir_read_errors(&self) -> (r: usize)
        ensures
            r as nat == self@.dir_errors,
    {
        self.dir_read_errors
    }
}

} // verus!
