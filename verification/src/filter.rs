//! From filesystem notifications to transcode jobs: which notifications
//! signal a finished file, and which of their paths are eligible.

use crate::paths::{extension, lies_below, path_extension};
use crate::text::{split, split_on};
use vstd::prelude::*;

verus! {

/// What a filesystem notification reports.
#[derive(Clone, Copy, Debug, PartialEq, Eq, Structural)]
pub enum EventKind {
    /// A file that was open for writing has been closed.
    CloseWrite,
    /// A file was renamed or moved, and the path is its new name.
    RenameTo,
    /// Anything else.
    Other,
}

/// A filesystem notification: its kind and the paths it concerns, in the
/// order in which they were reported.
#[derive(Clone, Debug, PartialEq, Eq)]
pub struct WatchEvent {
    pub kind: EventKind,
    pub paths: Vec<String>,
}

/// A notification as contracts see it.
pub struct WatchEventView {
    pub kind: EventKind,
    pub paths: Seq<Seq<char>>,
}

impl View for WatchEvent {
    type V = WatchEventView;

    open spec fn view(&self) -> WatchEventView {
        WatchEventView { kind: self.kind, paths: self.paths.deep_view() }
    }
}

/// One input file that was accepted for transcoding. Its view is the input
/// path.
#[derive(Clone, Debug, PartialEq, Eq)]
pub struct TranscodeJob {
    input: String,
}

impl View for TranscodeJob {
    type V = Seq<char>;

    closed spec fn view(&self) -> Seq<char> {
        self.input@
    }
}

impl DeepView for TranscodeJob {
    type V = Seq<char>;

    open spec fn deep_view(&self) -> Seq<char> {
        self@
    }
}

impl TranscodeJob {
    /// A job for the file at `input`.
    pub fn new(input: String) -> (job: TranscodeJob)
        ensures
            job@ == input@,
    {
        TranscodeJob { input }
    }

    /// The path of the file to transcode.
    pub fn input(&self) -> (path: &str)
        ensures
            path@ == self@,
    {
        self.input.as_str()
    }
}

/// The file extensions that make a file eligible. Its view is the set of
/// those extensions; they are compared as they are written.
#[derive(Clone, Debug)]
pub struct AllowedExtensions {
    items: Vec<String>,
}

impl View for AllowedExtensions {
    type V = Set<Seq<char>>;

    closed spec fn view(&self) -> Set<Seq<char>> {
        self.items.deep_view().to_set()
    }
}

impl AllowedExtensions {
    /// The set that holds the given extensions.
    pub fn from_list(items: Vec<String>) -> (allowed: AllowedExtensions)
        ensures
            allowed@ == items.deep_view().to_set(),
    {
        AllowedExtensions { items }
    }

    /// The set written as a comma-separated list: every piece between two
    /// commas is one extension, also an empty piece.
    pub fn parse(list: &str) -> (allowed: AllowedExtensions)
        ensures
            allowed@ == split_on(list@, ',').to_set(),
    {
        AllowedExtensions { items: split(list, ',') }
    }

    /// Whether `ext` is one of the allowed extensions.
    pub fn contains(&self, ext: &str) -> (found: bool)
        ensures
            found == self@.contains(ext@),
    {
        let wanted = ext.to_owned();
        let ghost all = self.items.deep_view();
        let mut at: usize = 0;
        while at < self.items.len()
            invariant
                at <= self.items.len(),
                all == self.items.deep_view(),
                wanted@ == ext@,
                forall|j: int| 0 <= j < at ==> all[j] != ext@,
            decreases self.items.len() - at,
        {
            if self.items[at] == wanted {
                assert(all[at as int] == ext@);
                return true;
            }
            at = at + 1;
        }
        false
    }
}

/// Whether a notification of this kind signals a file that is ready:
/// one that was closed after writing, or one that was renamed into place.
pub open spec fn is_ready_signal(kind: EventKind) -> bool {
    kind == EventKind::CloseWrite || kind == EventKind::RenameTo
}

/// Whether `path` is eligible: it has an extension, and the extension is
/// allowed.
pub open spec fn is_eligible(allowed: Set<Seq<char>>, path: Seq<char>) -> bool {
    match path_extension(path) {
        Some(ext) => allowed.contains(ext),
        None => false,
    }
}

/// The inputs of the jobs that a notification gives rise to: for a ready
/// signal its eligible paths, each once for each time it is listed, in the
/// order of the notification; for any other notification none.
pub open spec fn accepted_inputs(allowed: Set<Seq<char>>, event: WatchEventView) -> Seq<
    Seq<char>,
> {
    if is_ready_signal(event.kind) {
        event.paths.filter(|path: Seq<char>| is_eligible(allowed, path))
    } else {
        Seq::empty()
    }
}

/// Decides which notifications become jobs.
#[derive(Clone, Debug)]
pub struct PathFilter {
    allowed: AllowedExtensions,
}

impl PathFilter {
    /// A filter that lets the given extensions pass.
    pub fn new(allowed: AllowedExtensions) -> (filter: PathFilter)
        ensures
            filter.allowed() == allowed@,
    {
        PathFilter { allowed }
    }

    /// The extensions that this filter lets pass.
    pub closed spec fn allowed(&self) -> Set<Seq<char>> {
        self.allowed@
    }

    /// Whether a notification of this kind signals a ready file.
    pub fn is_ready(kind: EventKind) -> (ready: bool)
        ensures
            ready == is_ready_signal(kind),
    {
        match kind {
            EventKind::CloseWrite => true,
            EventKind::RenameTo => true,
            EventKind::Other => false,
        }
    }

    /// Whether `path` is eligible under this filter.
    pub fn accepts_path(&self, path: &str) -> (eligible: bool)
        ensures
            eligible == is_eligible(self.allowed(), path@),
    {
        match extension(path) {
            Some(ext) => self.allowed.contains(ext.as_str()),
            None => false,
        }
    }

    /// The jobs that `event` gives rise to.
    ///
    /// A ready signal yields exactly one job for each eligible path it
    /// lists, in the order listed, with nothing merged: a path listed twice
    /// yields two jobs. Any other notification yields none.
    pub fn accept(&self, event: &WatchEvent) -> (jobs: Vec<TranscodeJob>)
        ensures
            jobs.deep_view() == accepted_inputs(self.allowed(), event@),
    {
        let mut jobs: Vec<TranscodeJob> = Vec::new();
        if !PathFilter::is_ready(event.kind) {
            return jobs;
        }
        let ghost eligible = |path: Seq<char>| is_eligible(self.allowed(), path);
        let ghost paths = event.paths.deep_view();
        let mut at: usize = 0;
        while at < event.paths.len()
            invariant
                at <= event.paths.len(),
                paths == event.paths.deep_view(),
                eligible == |path: Seq<char>| is_eligible(self.allowed(), path),
                jobs.deep_view() == paths.take(at as int).filter(eligible),
            decreases event.paths.len() - at,
        {
            let path = &event.paths[at];
            proof {
                assert(paths.take(at + 1) =~= paths.take(at as int).push(path@));
                Seq::lemma_filter_push(paths.take(at as int), path@, eligible);
            }
            if self.accepts_path(path.as_str()) {
                let job = TranscodeJob::new(path.clone());
                jobs.push(job);
            }
            at = at + 1;
        }
        proof {
            assert(paths.take(at as int) =~= paths);
        }
        jobs
    }
}

/// A ready signal whose paths are all eligible yields one job for each of
/// them, in the order of the notification.
pub proof fn lemma_eligible_paths_become_jobs(allowed: Set<Seq<char>>, event: WatchEventView)
    requires
        is_ready_signal(event.kind),
        forall|i: int|
            0 <= i < event.paths.len() ==> is_eligible(allowed, #[trigger] event.paths[i]),
    ensures
        accepted_inputs(allowed, event) == event.paths,
{
    lemma_keep_all(event.paths, |path: Seq<char>| is_eligible(allowed, path));
}

/// A notification yields no job if its kind is no ready signal, or if none
/// of its paths is eligible: each of them lacks an extension or has one that
/// is not allowed.
pub proof fn lemma_no_job_without_cause(allowed: Set<Seq<char>>, event: WatchEventView)
    requires
        !is_ready_signal(event.kind) || forall|i: int|
            0 <= i < event.paths.len() ==> !is_eligible(allowed, #[trigger] event.paths[i]),
    ensures
        accepted_inputs(allowed, event).len() == 0,
{
    let eligible = |path: Seq<char>| is_eligible(allowed, path);
    if is_ready_signal(event.kind) {
        event.paths.lemma_all_neg_filter_empty(eligible);
    }
}

/// Every job stems from an eligible path of a ready signal.
pub proof fn lemma_jobs_are_eligible_paths(allowed: Set<Seq<char>>, event: WatchEventView, i: int)
    requires
        0 <= i < accepted_inputs(allowed, event).len(),
    ensures
        is_ready_signal(event.kind),
        is_eligible(allowed, accepted_inputs(allowed, event)[i]),
        event.paths.contains(accepted_inputs(allowed, event)[i]),
{
    let eligible = |path: Seq<char>| is_eligible(allowed, path);
    let kept = event.paths.filter(eligible);
    event.paths.lemma_filter_contains_rev(eligible, kept[i]);
}

/// A ready signal yields, for each path, as many jobs as it lists the path
/// if the path is eligible, and none if it is not.
pub proof fn lemma_one_job_for_each_listing(
    allowed: Set<Seq<char>>,
    event: WatchEventView,
    path: Seq<char>,
)
    requires
        is_ready_signal(event.kind),
    ensures
        accepted_inputs(allowed, event).to_multiset().count(path) == if is_eligible(allowed, path) {
            event.paths.to_multiset().count(path)
        } else {
            0
        },
{
    lemma_filter_count(event.paths, |path: Seq<char>| is_eligible(allowed, path), path);
}

/// Jobs lie where the notifications point: if every path of a notification
/// lies below `root`, so does the input of every job it gives rise to.
pub proof fn lemma_jobs_lie_below_root(
    allowed: Set<Seq<char>>,
    event: WatchEventView,
    root: Seq<char>,
)
    requires
        forall|i: int| 0 <= i < event.paths.len() ==> lies_below(root, #[trigger] event.paths[i]),
    ensures
        forall|i: int|
            0 <= i < accepted_inputs(allowed, event).len() ==> lies_below(
                root,
                #[trigger] accepted_inputs(allowed, event)[i],
            ),
{
    assert forall|i: int| 0 <= i < accepted_inputs(allowed, event).len() implies lies_below(
        root,
        #[trigger] accepted_inputs(allowed, event)[i],
    ) by {
        lemma_jobs_are_eligible_paths(allowed, event, i);
    }
}

/// A filter that every item passes keeps the sequence as it is.
proof fn lemma_keep_all(items: Seq<Seq<char>>, keep: spec_fn(Seq<char>) -> bool)
    requires
        forall|i: int| 0 <= i < items.len() ==> keep(#[trigger] items[i]),
    ensures
        items.filter(keep) == items,
    decreases items.len(),
{
    reveal(Seq::filter);
    if items.len() > 0 {
        lemma_keep_all(items.drop_last(), keep);
    }
}

/// A filter keeps every occurrence of an item that passes, and none of one
/// that does not.
proof fn lemma_filter_count(
    items: Seq<Seq<char>>,
    keep: spec_fn(Seq<char>) -> bool,
    item: Seq<char>,
)
    ensures
        items.filter(keep).to_multiset().count(item) == if keep(item) {
            items.to_multiset().count(item)
        } else {
            0
        },
    decreases items.len(),
{
    broadcast use vstd::multiset::group_multiset_axioms;

    if items.len() == 0 {
        items.to_multiset_ensures();
        assert(items.filter(keep) =~= items);
    } else {
        let front = items.drop_last();
        let last = items.last();
        lemma_filter_count(front, keep, item);
        assert(front.push(last) =~= items);
        Seq::lemma_filter_push(front, last, keep);
        vstd::seq_lib::to_multiset_build(front, last);
        vstd::seq_lib::to_multiset_build(front.filter(keep), last);
    }
}

} // verus!
