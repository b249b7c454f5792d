//! The job-execution state machine: for each job, what to run, and what to
//! do with the staged output once the transcoder has exited.
//!
//! The worker decides and its driver acts. The driver starts the subprocess
//! that `start` describes, waits for it, reports how it ended to `finish`,
//! and carries out the completion that `finish` returns.

use crate::filter::TranscodeJob;
use crate::paths::Directories;
use vstd::prelude::*;

verus! {

/// The transcoder program.
pub const TRANSCODER: &'static str = "ffmpeg";

/// The flag that precedes the hardware-acceleration selector.
pub const HWACCEL_FLAG: &'static str = "-hwaccel";

/// The flag that precedes the input path.
pub const INPUT_FLAG: &'static str = "-i";

/// How a transcoder run ended. Only success and failure are told apart.
#[derive(Clone, Copy, Debug, PartialEq, Eq, Structural)]
pub enum Outcome {
    Succeeded,
    Failed,
}

/// The user and group that own finished output.
#[derive(Clone, Copy, Debug, PartialEq, Eq, Structural)]
pub struct Ownership {
    pub uid: u32,
    pub gid: u32,
}

/// What every job of a worker shares.
#[derive(Clone, Debug, PartialEq, Eq)]
pub struct TranscodeSettings {
    /// The watch, staging and completion roots.
    pub directories: Directories,
    /// The hardware-acceleration selector handed to the transcoder.
    pub hwaccel: String,
    /// Arguments handed to the transcoder as they are, between its input
    /// and its output.
    pub pass_through: Vec<String>,
    /// The owner given to finished output.
    pub owner: Ownership,
}

/// A subprocess to run: the program and its arguments.
#[derive(Clone, Debug, PartialEq, Eq)]
pub struct Invocation {
    pub program: String,
    pub args: Vec<String>,
}

/// An invocation as contracts see it.
pub struct InvocationView {
    pub program: Seq<char>,
    pub args: Seq<Seq<char>>,
}

impl View for Invocation {
    type V = InvocationView;

    open spec fn view(&self) -> InvocationView {
        InvocationView { program: self.program@, args: self.args.deep_view() }
    }
}

/// What is done with the staged output of a job that has ended.
#[derive(Clone, Debug, PartialEq, Eq)]
pub enum Completion {
    /// Move `staged` to `target`, then give `target` to `owner`.
    Commit { staged: String, target: String, owner: Ownership },
    /// Remove `staged` if it is there.
    Discard { staged: String },
}

/// A completion as contracts see it.
pub enum CompletionView {
    Commit { staged: Seq<char>, target: Seq<char>, owner: Ownership },
    Discard { staged: Seq<char> },
}

impl View for Completion {
    type V = CompletionView;

    open spec fn view(&self) -> CompletionView {
        match *self {
            Completion::Commit { staged, target, owner } => CompletionView::Commit {
                staged: staged@,
                target: target@,
                owner,
            },
            Completion::Discard { staged } => CompletionView::Discard { staged: staged@ },
        }
    }
}

impl TranscodeSettings {
    /// The transcoder run for the job with the given input: the
    /// hardware-acceleration selector, the input, the pass-through arguments
    /// as they are, and the staging path as the output.
    pub open spec fn invocation_for(&self, input: Seq<char>) -> InvocationView {
        InvocationView {
            program: TRANSCODER@,
            args: seq![HWACCEL_FLAG@, self.hwaccel@, INPUT_FLAG@, input]
                + self.pass_through.deep_view() + seq![self.directories.staging_of(input)],
        }
    }

    /// What is done once the transcoder has exited for the job with the
    /// given input: after a success the staged file is committed to the
    /// completion path with the configured owner, after a failure it is
    /// discarded.
    pub open spec fn completion_for(&self, input: Seq<char>, outcome: Outcome) -> CompletionView {
        match outcome {
            Outcome::Succeeded => CompletionView::Commit {
                staged: self.directories.staging_of(input),
                target: self.directories.completion_of(input),
                owner: self.owner,
            },
            Outcome::Failed => CompletionView::Discard {
                staged: self.directories.staging_of(input),
            },
        }
    }

    /// Builds the transcoder run for the file at `input`.
    pub fn invocation(&self, input: &str) -> (run: Invocation)
        ensures
            run@ == self.invocation_for(input@),
    {
        let mut args: Vec<String> = Vec::new();
        args.push(HWACCEL_FLAG.to_owned());
        args.push(self.hwaccel.clone());
        args.push(INPUT_FLAG.to_owned());
        args.push(input.to_owned());
        let ghost fixed = args.deep_view();
        let ghost passed = self.pass_through.deep_view();
        assert(fixed =~= seq![HWACCEL_FLAG@, self.hwaccel@, INPUT_FLAG@, input@]);
        let mut at: usize = 0;
        while at < self.pass_through.len()
            invariant
                at <= self.pass_through.len(),
                passed == self.pass_through.deep_view(),
                args.deep_view() == fixed + passed.take(at as int),
            decreases self.pass_through.len() - at,
        {
            let ghost before = args.deep_view();
            args.push(self.pass_through[at].clone());
            assert(before.push(passed[at as int]) =~= fixed + passed.take(at + 1));
            at = at + 1;
        }
        let ghost before = args.deep_view();
        args.push(self.directories.staging_path(input));
        proof {
            let staged = self.directories.staging_of(input@);
            assert(args.deep_view() =~= before.push(staged));
            assert(before.push(staged) =~= fixed + passed + seq![staged]);
        }
        Invocation { program: TRANSCODER.to_owned(), args }
    }

    /// Decides what is done with the staged output of the file at `input`.
    pub fn completion(&self, input: &str, outcome: Outcome) -> (todo: Completion)
        ensures
            todo@ == self.completion_for(input@, outcome),
    {
        let staged = self.directories.staging_path(input);
        match outcome {
            Outcome::Succeeded => Completion::Commit {
                staged,
                target: self.directories.completion_path(input),
                owner: self.owner,
            },
            Outcome::Failed => Completion::Discard { staged },
        }
    }
}

/// Runs jobs one at a time.
///
/// A worker is idle or has one active job. `start` takes a job and makes it
/// active; `finish` ends the active job, whatever its outcome, and leaves
/// the worker idle. A job that has ended is gone: it is never run again.
#[derive(Debug)]
pub struct TranscodeWorker {
    settings: TranscodeSettings,
    active: Option<TranscodeJob>,
}

impl TranscodeWorker {
    /// What every job of this worker shares.
    pub closed spec fn settings(&self) -> TranscodeSettings {
        self.settings
    }

    /// The input of the active job, if there is one.
    pub closed spec fn active(&self) -> Option<Seq<char>> {
        match self.active {
            Some(job) => Some(job@),
            None => None,
        }
    }

    /// An idle worker.
    pub fn new(settings: TranscodeSettings) -> (worker: TranscodeWorker)
        ensures
            worker.settings() == settings,
            worker.active() is None,
    {
        TranscodeWorker { settings, active: None }
    }

    /// Whether the worker has no active job.
    pub fn is_idle(&self) -> (idle: bool)
        ensures
            idle == (self.active() is None),
    {
        self.active.is_none()
    }

    /// Makes `job` the active job and says what to run for it.
    pub fn start(&mut self, job: TranscodeJob) -> (run: Invocation)
        requires
            old(self).active() is None,
        ensures
            final(self).settings() == old(self).settings(),
            final(self).active() == Some(job@),
            run@ == old(self).settings().invocation_for(job@),
    {
        let run = self.settings.invocation(job.input());
        self.active = Some(job);
        run
    }

    /// Ends the active job with the outcome of its transcoder run, and says
    /// what to do with its staged output.
    pub fn finish(&mut self, outcome: Outcome) -> (todo: Completion)
        requires
            old(self).active() is Some,
        ensures
            final(self).settings() == old(self).settings(),
            final(self).active() is None,
            todo@ == old(self).settings().completion_for(old(self).active().unwrap(), outcome),
    {
        let job = self.active.take().unwrap();
        self.settings.completion(job.input(), outcome)
    }
}

/// The file that a completion takes from the staging area is the file that
/// the transcoder was told to write: the last argument of the run for a job
/// is the staged path of its commit, and of its discard.
pub proof fn lemma_completion_takes_what_was_written(
    settings: TranscodeSettings,
    input: Seq<char>,
    outcome: Outcome,
)
    ensures
        settings.invocation_for(input).args.last() == match settings.completion_for(
            input,
            outcome,
        ) {
            CompletionView::Commit { staged, .. } => staged,
            CompletionView::Discard { staged } => staged,
        },
        outcome == Outcome::Succeeded <==> settings.completion_for(input, outcome) is Commit,
{
}

} // verus!
