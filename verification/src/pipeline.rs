//! The pipeline as one state machine: notifications go in, jobs wait in
//! order, and one job at a time is handed to the transcoder.
//!
//! The pipeline decides and its driver acts. The driver feeds it the
//! notifications it receives (`observe`), asks it what to run next
//! (`dispatch`), runs that, and reports how the run ended (`complete`).
//! What the pipeline does is defined by the transition function `step`;
//! the laws at the end of this file hold for every sequence of transitions.

use crate::config::Config;
use crate::filter::{accepted_inputs, PathFilter, WatchEvent, WatchEventView};
use crate::queue::{Dequeued, JobQueue};
use crate::worker::{Completion, Invocation, Outcome, TranscodeSettings, TranscodeWorker};
use vstd::prelude::*;

verus! {

/// The state of a pipeline: the inputs of the jobs that wait, oldest first,
/// the input of the job that is being transcoded, if any, and whether the
/// pipeline has been shut down.
pub struct PipelineView {
    pub pending: Seq<Seq<char>>,
    pub active: Option<Seq<char>>,
    pub closed: bool,
}

/// What can happen to a pipeline.
pub enum Input {
    /// A notification was received.
    Observed(WatchEventView),
    /// The driver asked what to run next.
    Dispatched,
    /// The driver reported that the transcoder has exited.
    Exited(Outcome),
    /// The pipeline was shut down.
    ShutDown,
}

/// What the transcoder is made to do.
pub enum Activity {
    /// A run was started for the job with this input.
    Started(Seq<char>),
    /// The run for the job with this input has ended.
    Finished(Seq<char>, Outcome),
}

/// The state after `input` happened in `state`.
///
/// A notification appends the jobs it gives rise to, unless the pipeline is
/// shut down. A dispatch makes the oldest waiting job active, if the
/// pipeline is idle and a job waits. An exit ends the active job. A
/// shutdown closes the pipeline.
pub open spec fn step(allowed: Set<Seq<char>>, state: PipelineView, input: Input) -> PipelineView {
    match input {
        Input::Observed(event) => PipelineView {
            pending: state.pending + arrived(allowed, state, input),
            active: state.active,
            closed: state.closed,
        },
        Input::Dispatched => if state.active is None && state.pending.len() > 0 {
            PipelineView {
                pending: state.pending.drop_first(),
                active: Some(state.pending.first()),
                closed: state.closed,
            }
        } else {
            state
        },
        Input::Exited(_) => PipelineView {
            pending: state.pending,
            active: None,
            closed: state.closed,
        },
        Input::ShutDown => PipelineView {
            pending: state.pending,
            active: state.active,
            closed: true,
        },
    }
}

/// The inputs of the jobs that join the queue when `input` happens in
/// `state`.
pub open spec fn arrived(allowed: Set<Seq<char>>, state: PipelineView, input: Input) -> Seq<
    Seq<char>,
> {
    match input {
        Input::Observed(event) => if state.closed {
            Seq::empty()
        } else {
            accepted_inputs(allowed, event)
        },
        _ => Seq::empty(),
    }
}

/// What the transcoder is made to do when `input` happens in `state`: at
/// most one activity.
pub open spec fn activity(state: PipelineView, input: Input) -> Seq<Activity> {
    match input {
        Input::Dispatched => if state.active is None && state.pending.len() > 0 {
            seq![Activity::Started(state.pending.first())]
        } else {
            Seq::empty()
        },
        Input::Exited(outcome) => match state.active {
            Some(job) => seq![Activity::Finished(job, outcome)],
            None => Seq::empty(),
        },
        _ => Seq::empty(),
    }
}

/// The state after all of `inputs` happened in turn, starting in `state`.
pub open spec fn run(
    allowed: Set<Seq<char>>,
    state: PipelineView,
    inputs: Seq<Input>,
) -> PipelineView
    decreases inputs.len(),
{
    if inputs.len() == 0 {
        state
    } else {
        step(allowed, run(allowed, state, inputs.drop_last()), inputs.last())
    }
}

/// Everything the transcoder was made to do while `inputs` happened in
/// turn, starting in `state`.
pub open spec fn trace(allowed: Set<Seq<char>>, state: PipelineView, inputs: Seq<Input>) -> Seq<
    Activity,
>
    decreases inputs.len(),
{
    if inputs.len() == 0 {
        Seq::empty()
    } else {
        trace(allowed, state, inputs.drop_last()) + activity(
            run(allowed, state, inputs.drop_last()),
            inputs.last(),
        )
    }
}

/// The inputs of all jobs in the order in which they joined the queue: those
/// that wait in `state`, then those that arrived while `inputs` happened.
pub open spec fn arrivals(allowed: Set<Seq<char>>, state: PipelineView, inputs: Seq<Input>) -> Seq<
    Seq<char>,
>
    decreases inputs.len(),
{
    if inputs.len() == 0 {
        state.pending
    } else {
        arrivals(allowed, state, inputs.drop_last()) + arrived(
            allowed,
            run(allowed, state, inputs.drop_last()),
            inputs.last(),
        )
    }
}

/// What happens when the driver works off one job for each of `outcomes`:
/// it asks what to run, and reports the exit of the run with that outcome.
pub open spec fn rounds(outcomes: Seq<Outcome>) -> Seq<Input>
    decreases outcomes.len(),
{
    if outcomes.len() == 0 {
        Seq::empty()
    } else {
        rounds(outcomes.drop_last()) + seq![Input::Dispatched, Input::Exited(outcomes.last())]
    }
}

/// What the driver is to do after a dispatch.
#[derive(Debug, PartialEq, Eq)]
pub enum Dispatch {
    /// Run this; report its exit with `complete`.
    Run(Invocation),
    /// A job is active: its exit has to be reported first.
    Busy,
    /// No job waits: wait for notifications.
    Wait,
    /// No job waits and the pipeline is shut down: stop.
    Stop,
}

/// A filter, a queue and a worker, wired together.
#[derive(Debug)]
pub struct Pipeline {
    filter: PathFilter,
    queue: JobQueue,
    worker: TranscodeWorker,
}

impl View for Pipeline {
    type V = PipelineView;

    closed spec fn view(&self) -> PipelineView {
        PipelineView {
            pending: self.queue@.pending,
            active: self.worker.active(),
            closed: self.queue@.closed,
        }
    }
}

impl Pipeline {
    /// The extensions that make a file eligible.
    pub closed spec fn allowed(&self) -> Set<Seq<char>> {
        self.filter.allowed()
    }

    /// What every job of this pipeline shares.
    pub closed spec fn settings(&self) -> TranscodeSettings {
        self.worker.settings()
    }

    /// Whether `after` is `self` with the same configuration and the given
    /// state.
    pub open spec fn becomes(&self, after: &Pipeline, state: PipelineView) -> bool {
        &&& after.allowed() == self.allowed()
        &&& after.settings() == self.settings()
        &&& after@ == state
    }

    /// An idle, open pipeline with nothing waiting.
    pub fn new(config: Config) -> (pipeline: Pipeline)
        ensures
            pipeline.allowed() == config.allowed@,
            pipeline.settings() == config.transcode,
            pipeline@.pending.len() == 0,
            pipeline@.active is None,
            !pipeline@.closed,
    {
        Pipeline {
            filter: PathFilter::new(config.allowed),
            queue: JobQueue::new(),
            worker: TranscodeWorker::new(config.transcode),
        }
    }

    /// Takes in a notification: the jobs it gives rise to join the queue in
    /// order. Returns their inputs. A pipeline that is shut down takes in
    /// nothing.
    pub fn observe(&mut self, event: &WatchEvent) -> (accepted: Vec<String>)
        ensures
            old(self).becomes(
                final(self),
                step(old(self).allowed(), old(self)@, Input::Observed(event@)),
            ),
            accepted.deep_view() == arrived(
                old(self).allowed(),
                old(self)@,
                Input::Observed(event@),
            ),
    {
        let mut accepted: Vec<String> = Vec::new();
        if self.queue.is_closed() {
            return accepted;
        }
        let jobs = self.filter.accept(event);
        let ghost inputs = jobs.deep_view();
        let ghost all = jobs@;
        for job in it: jobs.into_iter()
            invariant
                it.seq() == all,
                inputs.len() == all.len(),
                forall|i: int| 0 <= i < all.len() ==> inputs[i] == (#[trigger] all[i])@,
                self.filter == old(self).filter,
                self.worker == old(self).worker,
                !self.queue@.closed,
                self.queue@.pending == old(self).queue@.pending + inputs.take(it.index() as int),
                accepted.deep_view() == inputs.take(it.index() as int),
        {
            accepted.push(job.input().to_owned());
            let queued = self.queue.push(job);
            assert(queued is Ok);
        }
        proof {
            assert(inputs.take(all.len() as int) =~= inputs);
        }
        accepted
    }

    /// Asks what to run next. An idle pipeline with a job waiting makes the
    /// oldest one active and returns its transcoder run; otherwise nothing
    /// changes, and the answer says why there is nothing to run.
    pub fn dispatch(&mut self) -> (todo: Dispatch)
        ensures
            old(self).becomes(
                final(self),
                step(old(self).allowed(), old(self)@, Input::Dispatched),
            ),
            (todo is Run) == (activity(old(self)@, Input::Dispatched).len() == 1),
            match todo {
                Dispatch::Run(run) => {
                    &&& old(self)@.active is None
                    &&& old(self)@.pending.len() > 0
                    &&& run@ == old(self).settings().invocation_for(old(self)@.pending.first())
                },
                Dispatch::Busy => old(self)@.active is Some,
                Dispatch::Wait => {
                    &&& old(self)@.active is None
                    &&& old(self)@.pending.len() == 0
                    &&& !old(self)@.closed
                },
                Dispatch::Stop => {
                    &&& old(self)@.active is None
                    &&& old(self)@.pending.len() == 0
                    &&& old(self)@.closed
                },
            },
    {
        if !self.worker.is_idle() {
            return Dispatch::Busy;
        }
        match self.queue.pop() {
            Dequeued::Job(job) => Dispatch::Run(self.worker.start(job)),
            Dequeued::Empty => Dispatch::Wait,
            Dequeued::Closed => Dispatch::Stop,
        }
    }

    /// Reports that the transcoder has exited. The active job ends, and the
    /// answer says what to do with its staged output; without an active job
    /// nothing changes and there is nothing to do.
    pub fn complete(&mut self, outcome: Outcome) -> (todo: Option<Completion>)
        ensures
            old(self).becomes(
                final(self),
                step(old(self).allowed(), old(self)@, Input::Exited(outcome)),
            ),
            (todo is Some) == (activity(old(self)@, Input::Exited(outcome)).len() == 1),
            match todo {
                Some(completion) => {
                    &&& old(self)@.active is Some
                    &&& completion@ == old(self).settings().completion_for(
                        old(self)@.active.unwrap(),
                        outcome,
                    )
                },
                None => old(self)@.active is None,
            },
    {
        if self.worker.is_idle() {
            return None;
        }
        Some(self.worker.finish(outcome))
    }

    /// Shuts the pipeline down: it takes in no more notifications, and once
    /// the waiting jobs are done a dispatch says to stop.
    pub fn shutdown(&mut self)
        ensures
            old(self).becomes(
                final(self),
                step(old(self).allowed(), old(self)@, Input::ShutDown),
            ),
    {
        self.queue.close();
    }
}

/// Whether `log` runs `jobs` one at a time and in order: the job in place
/// `n` of `jobs` is started in place `2n` of `log` and finished in place
/// `2n + 1`, and `log` holds nothing else.
pub open spec fn runs_in_order(log: Seq<Activity>, jobs: Seq<Seq<char>>) -> bool {
    forall|k: int|
        0 <= k < log.len() ==> k / 2 < jobs.len() && match #[trigger] log[k] {
            Activity::Started(input) => k % 2 == 0 && input == jobs[k / 2],
            Activity::Finished(input, _) => k % 2 == 1 && input == jobs[k / 2],
        }
}

/// Whether `state` is what is left of `jobs` after `log`: the jobs that
/// `log` has not started wait, in order, and the active job is the one that
/// `log` has started and not finished.
pub open spec fn leaves(log: Seq<Activity>, jobs: Seq<Seq<char>>, state: PipelineView) -> bool {
    let started = (log.len() as int + 1) / 2;
    &&& started <= jobs.len()
    &&& state.pending == jobs.skip(started)
    &&& match state.active {
        Some(input) => log.len() % 2 == 1 && input == jobs[started - 1],
        None => log.len() % 2 == 0,
    }
}

/// Jobs are transcoded one at a time, in the order in which they arrived.
///
/// Whatever happens to a pipeline that starts idle, the transcoder is made
/// to start and finish the first job that arrived, then the second, and so
/// on: no job is started before the one before it has finished, none is
/// skipped, and none is run twice. The jobs that were not started yet still
/// wait in their order of arrival.
pub proof fn lemma_one_at_a_time_in_order(
    allowed: Set<Seq<char>>,
    start: PipelineView,
    inputs: Seq<Input>,
)
    requires
        start.active is None,
    ensures
        runs_in_order(trace(allowed, start, inputs), arrivals(allowed, start, inputs)),
        leaves(
            trace(allowed, start, inputs),
            arrivals(allowed, start, inputs),
            run(allowed, start, inputs),
        ),
    decreases inputs.len(),
{
    if inputs.len() == 0 {
        assert(start.pending.skip(0) =~= start.pending);
    } else {
        let earlier = inputs.drop_last();
        lemma_one_at_a_time_in_order(allowed, start, earlier);
        let state = run(allowed, start, earlier);
        let jobs = arrivals(allowed, start, earlier);
        let started = (trace(allowed, start, earlier).len() as int + 1) / 2;
        let new_jobs = arrived(allowed, state, inputs.last());
        // Jobs that arrive wait behind those that wait already.
        assert((jobs + new_jobs).skip(started) =~= jobs.skip(started) + new_jobs);
        // A dispatch takes the job that has waited longest.
        if state.pending.len() > 0 {
            assert(state.pending.drop_first() =~= jobs.skip(started + 1));
        }
    }
}

/// First in, first out: of two jobs that wait while the pipeline is idle,
/// the one that is ahead in the queue is started and finished before the
/// other is started.
///
/// `first` and `second` are the places of the two jobs among the waiting
/// ones. By `lemma_one_at_a_time_in_order` the job in place `n` is started
/// in place `2n` of the trace and nowhere else. So once the trace reaches
/// the start of the second job, in place `2 * second`, it holds the start of
/// the first job in place `2 * first` and its end in the place after that,
/// both of which come earlier.
pub proof fn lemma_first_in_first_out(
    allowed: Set<Seq<char>>,
    start: PipelineView,
    inputs: Seq<Input>,
    first: int,
    second: int,
)
    requires
        start.active is None,
        0 <= first < second < start.pending.len(),
    ensures
        ({
            let log = trace(allowed, start, inputs);
            2 * second < log.len() ==> {
                &&& log[2 * second] == Activity::Started(start.pending[second])
                &&& log[2 * first] == Activity::Started(start.pending[first])
                &&& log[2 * first + 1] is Finished
                &&& log[2 * first + 1]->Finished_0 == start.pending[first]
            }
        }),
{
    lemma_one_at_a_time_in_order(allowed, start, inputs);
    lemma_arrivals_start_with_pending(allowed, start, inputs);
    let log = trace(allowed, start, inputs);
    if 2 * second < log.len() {
    }
}

/// The jobs that wait at the start are the first to have arrived.
pub proof fn lemma_arrivals_start_with_pending(
    allowed: Set<Seq<char>>,
    start: PipelineView,
    inputs: Seq<Input>,
)
    ensures
        start.pending.is_prefix_of(arrivals(allowed, start, inputs)),
    decreases inputs.len(),
{
    if inputs.len() > 0 {
        lemma_arrivals_start_with_pending(allowed, start, inputs.drop_last());
    }
}

/// Every job that waits gets its turn: a driver that keeps asking what to
/// run and reporting exits works off the queue from its head. After as many
/// rounds as there are outcomes, that many jobs have been started and
/// finished, each once, with the outcome reported for it, and the rest still
/// waits.
pub proof fn lemma_rounds_work_off_the_queue(
    allowed: Set<Seq<char>>,
    start: PipelineView,
    outcomes: Seq<Outcome>,
)
    requires
        start.active is None,
        outcomes.len() <= start.pending.len(),
    ensures
        run(allowed, start, rounds(outcomes)).pending == start.pending.skip(outcomes.len() as int),
        run(allowed, start, rounds(outcomes)).active is None,
        run(allowed, start, rounds(outcomes)).closed == start.closed,
        trace(allowed, start, rounds(outcomes)).len() == 2 * outcomes.len(),
        forall|i: int|
            #![trigger outcomes[i]]
            0 <= i < outcomes.len() ==> {
                &&& trace(allowed, start, rounds(outcomes))[2 * i] == Activity::Started(
                    start.pending[i],
                )
                &&& trace(allowed, start, rounds(outcomes))[2 * i + 1] == Activity::Finished(
                    start.pending[i],
                    outcomes[i],
                )
            },
    decreases outcomes.len(),
{
    if outcomes.len() > 0 {
        let earlier = outcomes.drop_last();
        lemma_rounds_work_off_the_queue(allowed, start, earlier);
        let asked = rounds(earlier) + seq![Input::Dispatched];
        assert(rounds(outcomes).drop_last() =~= asked);
        assert(asked.drop_last() =~= rounds(earlier));
        let log = trace(allowed, start, rounds(outcomes));
        assert(log == trace(allowed, start, asked) + activity(
            run(allowed, start, asked),
            Input::Exited(outcomes.last()),
        ));
        assert forall|i: int| #![trigger outcomes[i]] 0 <= i < outcomes.len() implies {
            &&& log[2 * i] == Activity::Started(start.pending[i])
            &&& log[2 * i + 1] == Activity::Finished(start.pending[i], outcomes[i])
        } by {
            if i < earlier.len() {
                assert(earlier[i] == outcomes[i]);
            }
        }
    }
}

} // verus!
