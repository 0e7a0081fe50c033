//! The download of a whole board: one task per pin, and a bound on how many of them
//! write at once.
//!
//! A [`Job`] fetches and stores nothing. It keeps the stage of every task and is told
//! what happened ([`Event`]); the caller does what the stage of a task asks for and
//! reports back. Tasks do not wait for each other, except before writing: at most as
//! many tasks as the job allows are in [`Stage::Write`] at any time.

use vstd::prelude::*;
use crate::board::{Pin, PinView};
use crate::download::file_name_of;

verus! {

/// Why a pin's picture was not stored.
#[derive(Clone, Copy, Debug, PartialEq, Eq, Structural)]
pub enum Failure {
    /// The picture's address has no extension, so the pin has no file name.
    NoExtension,
    /// The picture could not be fetched: no answer, or an answer that is no success.
    Fetch,
    /// The picture was fetched but could not be stored.
    Write,
}

/// How the task of one pin ended.
#[derive(Clone, Copy, Debug, PartialEq, Eq, Structural)]
pub enum Outcome {
    /// The picture was fetched and stored.
    Written,
    /// The file was there already and was left as it is.
    Skipped,
    /// The picture was not stored; sibling tasks are not touched by this.
    Failed(Failure),
}

/// Where the task of one pin stands, which is also what it asks of the caller next.
#[derive(Clone, Copy, Debug, PartialEq, Eq, Structural)]
pub enum Stage {
    /// Look whether the pin's file exists, and report [`Event::Probed`].
    Probe,
    /// Fetch the picture, and report [`Event::Fetched`].
    Fetch,
    /// The picture is at hand and waits for a free place to write: report
    /// [`Event::Admit`], again after a sibling has finished writing.
    Queued,
    /// Store the picture, and report [`Event::Wrote`].
    Write,
    /// The task is over.
    Done(Outcome),
}

/// What the caller reports of one task.
#[derive(Clone, Copy, Debug, PartialEq, Eq, Structural)]
pub enum Event {
    /// Whether the pin's file exists.
    Probed(bool),
    /// Whether the picture was fetched.
    Fetched(bool),
    /// The task asks to be let in to write.
    Admit,
    /// Whether the picture was stored.
    Wrote(bool),
}

/// The stage a task begins in: a pin without a file name has failed at once.
pub open spec fn first_stage(pin: PinView) -> Stage {
    if file_name_of(pin) is Some {
        Stage::Probe
    } else {
        Stage::Done(Outcome::Failed(Failure::NoExtension))
    }
}

/// The stage of a task after an event. `room` says whether a place to write is free.
/// An event that the stage did not ask for changes nothing.
pub open spec fn next_stage(stage: Stage, event: Event, force: bool, room: bool) -> Stage {
    match (stage, event) {
        (Stage::Probe, Event::Probed(exists)) => if exists && !force {
            Stage::Done(Outcome::Skipped)
        } else {
            Stage::Fetch
        },
        (Stage::Fetch, Event::Fetched(true)) => Stage::Queued,
        (Stage::Fetch, Event::Fetched(false)) => Stage::Done(Outcome::Failed(Failure::Fetch)),
        (Stage::Queued, Event::Admit) => if room {
            Stage::Write
        } else {
            Stage::Queued
        },
        (Stage::Write, Event::Wrote(true)) => Stage::Done(Outcome::Written),
        (Stage::Write, Event::Wrote(false)) => Stage::Done(Outcome::Failed(Failure::Write)),
        _ => stage,
    }
}

impl Stage {
    /// The stage that follows this one on `event`: see [`next_stage`].
    pub fn after(self, event: Event, force: bool, room: bool) -> (next: Stage)
        ensures
            next == next_stage(self, event, force, room),
    {
        match (self, event) {
            (Stage::Probe, Event::Probed(exists)) => if exists && !force {
                Stage::Done(Outcome::Skipped)
            } else {
                Stage::Fetch
            },
            (Stage::Fetch, Event::Fetched(true)) => Stage::Queued,
            (Stage::Fetch, Event::Fetched(false)) => Stage::Done(Outcome::Failed(Failure::Fetch)),
            (Stage::Queued, Event::Admit) => if room {
                Stage::Write
            } else {
                Stage::Queued
            },
            (Stage::Write, Event::Wrote(true)) => Stage::Done(Outcome::Written),
            (Stage::Write, Event::Wrote(false)) => Stage::Done(Outcome::Failed(Failure::Write)),
            _ => self,
        }
    }
}

/// How many tasks are writing.
pub open spec fn writing(stages: Seq<Stage>) -> nat
    decreases stages.len(),
{
    if stages.len() == 0 {
        0
    } else {
        writing(stages.drop_last()) + if stages.last() == Stage::Write {
            1nat
        } else {
            0nat
        }
    }
}

/// The stages of all tasks after task `index` was reported `event`, in a job that lets
/// `capacity` tasks write at once. An index that names no task changes nothing.
pub open spec fn after_event(
    stages: Seq<Stage>,
    capacity: nat,
    force: bool,
    index: int,
    event: Event,
) -> Seq<Stage> {
    if 0 <= index < stages.len() {
        stages.update(index, next_stage(stages[index], event, force, writing(stages) < capacity))
    } else {
        stages
    }
}

/// Changing one stage changes the number of writers by that stage alone.
pub proof fn writing_after_update(stages: Seq<Stage>, index: int, stage: Stage)
    requires
        0 <= index < stages.len(),
    ensures
        writing(stages.update(index, stage)) + (if stages[index] == Stage::Write {
            1nat
        } else {
            0nat
        }) == writing(stages) + (if stage == Stage::Write {
            1nat
        } else {
            0nat
        }),
    decreases stages.len(),
{
    let changed = stages.update(index, stage);
    if index == stages.len() - 1 {
        assert(changed.drop_last() =~= stages.drop_last());
    } else {
        writing_after_update(stages.drop_last(), index, stage);
        assert(changed.drop_last() =~= stages.drop_last().update(index, stage));
    }
}

/// The stages that the tasks of `pins` begin in.
pub open spec fn first_stages(pins: Seq<PinView>) -> Seq<Stage> {
    Seq::new(pins.len(), |i: int| first_stage(pins[i]))
}

/// Every task is over.
pub open spec fn complete(stages: Seq<Stage>) -> bool {
    forall|i: int| 0 <= i < stages.len() ==> (#[trigger] stages[i]) is Done
}

/// How many tasks ended in each way.
#[derive(Clone, Copy, Debug, PartialEq, Eq, Structural)]
pub struct Report {
    /// Pictures fetched and stored.
    pub written: usize,
    /// Files that were there and were left alone.
    pub skipped: usize,
    /// Pins whose picture was not stored.
    pub failed: usize,
}

/// What a [`Report`] is in contracts.
pub ghost struct ReportView {
    pub written: nat,
    pub skipped: nat,
    pub failed: nat,
}

impl View for Report {
    type V = ReportView;

    open spec fn view(&self) -> ReportView {
        ReportView {
            written: self.written as nat,
            skipped: self.skipped as nat,
            failed: self.failed as nat,
        }
    }
}

/// A report with one more task counted: a task that is not over counts nowhere.
pub open spec fn counted(report: ReportView, stage: Stage) -> ReportView {
    match stage {
        Stage::Done(Outcome::Written) => ReportView { written: report.written + 1, ..report },
        Stage::Done(Outcome::Skipped) => ReportView { skipped: report.skipped + 1, ..report },
        Stage::Done(Outcome::Failed(_)) => ReportView { failed: report.failed + 1, ..report },
        _ => report,
    }
}

/// The report of a job whose tasks stand at `stages`.
pub open spec fn tally(stages: Seq<Stage>) -> ReportView
    decreases stages.len(),
{
    if stages.len() == 0 {
        ReportView { written: 0, skipped: 0, failed: 0 }
    } else {
        counted(tally(stages.drop_last()), stages.last())
    }
}

/// The download of a board's pins.
pub struct Job {
    stages: Vec<Stage>,
    writers: usize,
    capacity: usize,
    force: bool,
}

impl Job {
    /// The stage of every task, in the order of the pins.
    pub closed spec fn stages(&self) -> Seq<Stage> {
        self.stages@
    }

    /// How many tasks may write at once.
    pub closed spec fn capacity(&self) -> nat {
        self.capacity as nat
    }

    /// Whether files that exist are fetched again.
    pub closed spec fn force(&self) -> bool {
        self.force
    }

    #[verifier::type_invariant]
    spec fn bounded(&self) -> bool {
        &&& self.writers == writing(self.stages@)
        &&& self.writers <= self.capacity
    }

    /// Sets up the download of `pins`: one task for each, in their order. A pin without
    /// a file name has failed before anything is asked of the caller; every other task
    /// begins by asking whether its file exists. No task writes yet.
    pub fn new(pins: &Vec<Pin>, force: bool, max_concurrent_writes: usize) -> (job: Job)
        ensures
            job.stages() == first_stages(pins.deep_view()),
            job.capacity() == max_concurrent_writes,
            job.force() == force,
    {
        let mut stages: Vec<Stage> = Vec::new();
        let mut i: usize = 0;
        while i < pins.len()
            invariant
                i <= pins.len(),
                stages.len() == i,
                forall|j: int| 0 <= j < i ==> stages[j] == first_stage(#[trigger] pins[j]@),
                writing(stages@) == 0,
            decreases pins.len() - i,
        {
            let stage = match pins[i].file_name() {
                Some(_) => Stage::Probe,
                None => Stage::Done(Outcome::Failed(Failure::NoExtension)),
            };
            proof {
                assert(stages@.push(stage).drop_last() =~= stages@);
            }
            stages.push(stage);
            i = i + 1;
        }
        Job { stages: stages, writers: 0, capacity: max_concurrent_writes, force: force }
    }

    /// How many tasks the job has.
    pub fn len(&self) -> (len: usize)
        ensures
            len == self.stages().len(),
    {
        self.stages.len()
    }

    /// The stage of task `index`; nothing where there is no such task.
    pub fn stage(&self, index: usize) -> (stage: Option<Stage>)
        ensures
            stage == if index < self.stages().len() {
                Some(self.stages()[index as int])
            } else {
                None
            },
    {
        if index < self.stages.len() {
            Some(self.stages[index])
        } else {
            None
        }
    }

    /// How many tasks are writing now: never more than the job allows.
    pub fn writers(&self) -> (writers: usize)
        ensures
            writers == writing(self.stages()),
            writers <= self.capacity(),
    {
        proof {
            use_type_invariant(self);
        }
        self.writers
    }

    /// Whether every task is over.
    pub fn is_complete(&self) -> (over: bool)
        ensures
            over == complete(self.stages()),
    {
        let mut i: usize = 0;
        while i < self.stages.len()
            invariant
                i <= self.stages.len(),
                forall|j: int| 0 <= j < i ==> (#[trigger] self.stages[j]) is Done,
            decreases self.stages.len() - i,
        {
            match self.stages[i] {
                Stage::Done(_) => {},
                _ => {
                    return false;
                },
            }
            i = i + 1;
        }
        true
    }

    /// Counts how the tasks that are over have ended.
    pub fn report(&self) -> (report: Report)
        ensures
            report@ == tally(self.stages()),
    {
        let mut report = Report { written: 0, skipped: 0, failed: 0 };
        let mut i: usize = 0;
        while i < self.stages.len()
            invariant
                i <= self.stages.len(),
                report@ == tally(self.stages@.take(i as int)),
                report.written + report.skipped + report.failed <= i,
            decreases self.stages.len() - i,
        {
            proof {
                assert(self.stages@.take(i + 1).drop_last() =~= self.stages@.take(i as int));
            }
            match self.stages[i] {
                Stage::Done(Outcome::Written) => {
                    report.written = report.written + 1;
                },
                Stage::Done(Outcome::Skipped) => {
                    report.skipped = report.skipped + 1;
                },
                Stage::Done(Outcome::Failed(_)) => {
                    report.failed = report.failed + 1;
                },
                _ => {},
            }
            i = i + 1;
        }
        assert(self.stages@.take(i as int) =~= self.stages@);
        report
    }

    /// Reports `event` for task `index` and hands back the task's stage after it;
    /// nothing where there is no such task.
    pub fn on_event(&mut self, index: usize, event: Event) -> (stage: Option<Stage>)
        ensures
            final(self).stages() == after_event(
                old(self).stages(),
                old(self).capacity(),
                old(self).force(),
                index as int,
                event,
            ),
            final(self).capacity() == old(self).capacity(),
            final(self).force() == old(self).force(),
            writing(final(self).stages()) <= final(self).capacity(),
            stage == if index < old(self).stages().len() {
                Some(final(self).stages()[index as int])
            } else {
                None
            },
    {
        proof {
            use_type_invariant(&*self);
        }
        if index >= self.stages.len() {
            return None;
        }
        // The stages and the count of writers change together: the job is taken apart,
        // and put together again once both are new.
        let mut taken = Job { stages: Vec::new(), writers: 0, capacity: 0, force: false };
        core::mem::swap(self, &mut taken);
        let Job { mut stages, mut writers, capacity, force } = taken;
        let stage = stages[index];
        let next = stage.after(event, force, writers < capacity);
        proof {
            writing_after_update(stages@, index as int, next);
        }
        let was_writing = matches!(stage, Stage::Write);
        let is_writing = matches!(next, Stage::Write);
        stages.set(index, next);
        if was_writing && !is_writing {
            writers = writers - 1;
        } else if !was_writing && is_writing {
            writers = writers + 1;
        }
        *self = Job { stages: stages, writers: writers, capacity: capacity, force: force };
        Some(next)
    }
}

/// The stages of all tasks after `events` were reported in turn, each to the task its
/// index names.
pub open spec fn run(
    stages: Seq<Stage>,
    capacity: nat,
    force: bool,
    events: Seq<(int, Event)>,
) -> Seq<Stage>
    decreases events.len(),
{
    if events.len() == 0 {
        stages
    } else {
        after_event(
            run(stages, capacity, force, events.drop_last()),
            capacity,
            force,
            events.last().0,
            events.last().1,
        )
    }
}

/// No task writes when a job is set up.
pub proof fn nobody_writes_at_first(pins: Seq<PinView>)
    ensures
        writing(first_stages(pins)) == 0,
    decreases pins.len(),
{
    if pins.len() > 0 {
        nobody_writes_at_first(pins.drop_last());
        assert(first_stages(pins).drop_last() =~= first_stages(pins.drop_last()));
    }
}

/// One event leaves the number of writers within the bound, and the number of tasks
/// as it was.
pub proof fn event_keeps_bound(
    stages: Seq<Stage>,
    capacity: nat,
    force: bool,
    index: int,
    event: Event,
)
    requires
        writing(stages) <= capacity,
    ensures
        after_event(stages, capacity, force, index, event).len() == stages.len(),
        writing(after_event(stages, capacity, force, index, event)) <= capacity,
{
    if 0 <= index < stages.len() {
        let next = next_stage(stages[index], event, force, writing(stages) < capacity);
        writing_after_update(stages, index, next);
    }
}

/// At no instant do more tasks write than the job allows: whatever is reported, in
/// whatever order and to whichever tasks, the number of tasks in [`Stage::Write`] stays
/// within the bound after every single event.
pub proof fn writers_never_exceed_bound(
    pins: Seq<PinView>,
    capacity: nat,
    force: bool,
    events: Seq<(int, Event)>,
    instant: int,
)
    requires
        0 <= instant <= events.len(),
    ensures
        run(first_stages(pins), capacity, force, events.take(instant)).len() == pins.len(),
        writing(run(first_stages(pins), capacity, force, events.take(instant))) <= capacity,
    decreases instant,
{
    let so_far = events.take(instant);
    if instant == 0 {
        nobody_writes_at_first(pins);
    } else {
        writers_never_exceed_bound(pins, capacity, force, events, instant - 1);
        assert(so_far.drop_last() =~= events.take(instant - 1));
        event_keeps_bound(
            run(first_stages(pins), capacity, force, events.take(instant - 1)),
            capacity,
            force,
            so_far.last().0,
            so_far.last().1,
        );
    }
}

/// How many reports a task is away from its end, at most.
pub open spec fn steps_left(stage: Stage) -> nat {
    match stage {
        Stage::Probe => 4,
        Stage::Fetch => 3,
        Stage::Queued => 2,
        Stage::Write => 1,
        Stage::Done(_) => 0,
    }
}

/// How many reports a job is away from its end, at most.
pub open spec fn work_left(stages: Seq<Stage>) -> nat
    decreases stages.len(),
{
    if stages.len() == 0 {
        0
    } else {
        work_left(stages.drop_last()) + steps_left(stages.last())
    }
}

/// Changing one stage changes the work that is left by that stage alone.
pub proof fn work_left_after_update(stages: Seq<Stage>, index: int, stage: Stage)
    requires
        0 <= index < stages.len(),
    ensures
        work_left(stages.update(index, stage)) + steps_left(stages[index]) == work_left(stages)
            + steps_left(stage),
    decreases stages.len(),
{
    let changed = stages.update(index, stage);
    if index == stages.len() - 1 {
        assert(changed.drop_last() =~= stages.drop_last());
    } else {
        work_left_after_update(stages.drop_last(), index, stage);
        assert(changed.drop_last() =~= stages.drop_last().update(index, stage));
    }
}

/// A job of `n` tasks begins at most `4 * n` reports away from its end.
pub proof fn work_at_first(pins: Seq<PinView>)
    ensures
        work_left(first_stages(pins)) <= 4 * pins.len(),
    decreases pins.len(),
{
    if pins.len() > 0 {
        work_at_first(pins.drop_last());
        assert(first_stages(pins).drop_last() =~= first_stages(pins.drop_last()));
    }
}

/// Every report that changes anything brings the job nearer to its end.
pub proof fn every_change_is_progress(
    stages: Seq<Stage>,
    capacity: nat,
    force: bool,
    index: int,
    event: Event,
)
    ensures
        ({
            let after = after_event(stages, capacity, force, index, event);
            after == stages || work_left(after) < work_left(stages)
        }),
{
    if 0 <= index < stages.len() {
        let next = next_stage(stages[index], event, force, writing(stages) < capacity);
        work_left_after_update(stages, index, next);
    }
}

/// Where some task writes, there is a task that writes.
pub proof fn somebody_writes(stages: Seq<Stage>) -> (index: int)
    requires
        writing(stages) > 0,
    ensures
        0 <= index < stages.len(),
        stages[index] == Stage::Write,
    decreases stages.len(),
{
    if stages.last() == Stage::Write {
        stages.len() - 1
    } else {
        somebody_writes(stages.drop_last())
    }
}

/// A job cannot get stuck. As long as it lets at least one task write and some task
/// is not over, there is a report that brings it nearer to its end: a task that is
/// queued while every place is taken waits for a writer, and that writer can finish.
pub proof fn job_never_deadlocks(stages: Seq<Stage>, capacity: nat, force: bool) -> (step: (
    int,
    Event,
))
    requires
        capacity >= 1,
        writing(stages) <= capacity,
        !complete(stages),
    ensures
        work_left(after_event(stages, capacity, force, step.0, step.1)) < work_left(stages),
{
    let index = choose|i: int| 0 <= i < stages.len() && !((#[trigger] stages[i]) is Done);
    let step = match stages[index] {
        Stage::Probe => (index, Event::Probed(false)),
        Stage::Fetch => (index, Event::Fetched(true)),
        Stage::Write => (index, Event::Wrote(true)),
        _ => if writing(stages) < capacity {
            (index, Event::Admit)
        } else {
            (somebody_writes(stages), Event::Wrote(true))
        },
    };
    let next = next_stage(stages[step.0], step.1, force, writing(stages) < capacity);
    work_left_after_update(stages, step.0, next);
    step
}

/// What the world answers to one task, whenever it is asked.
pub ghost struct Facts {
    /// The pin's file exists.
    pub exists: bool,
    /// The picture can be fetched.
    pub fetched: bool,
    /// The picture can be stored.
    pub stored: bool,
}

/// How a task ends, given whether its pin has a file name and what the world answers.
pub open spec fn settled(named: bool, force: bool, facts: Facts) -> Outcome {
    if !named {
        Outcome::Failed(Failure::NoExtension)
    } else if facts.exists && !force {
        Outcome::Skipped
    } else if !facts.fetched {
        Outcome::Failed(Failure::Fetch)
    } else if !facts.stored {
        Outcome::Failed(Failure::Write)
    } else {
        Outcome::Written
    }
}

/// The event reports what the facts say.
pub open spec fn tells(event: Event, facts: Facts) -> bool {
    match event {
        Event::Probed(exists) => exists == facts.exists,
        Event::Fetched(fetched) => fetched == facts.fetched,
        Event::Wrote(stored) => stored == facts.stored,
        Event::Admit => true,
    }
}

/// Every event reports what the facts of its task say.
pub open spec fn truthful(events: Seq<(int, Event)>, facts: Seq<Facts>) -> bool {
    forall|j: int|
        0 <= j < events.len() && 0 <= (#[trigger] events[j]).0 < facts.len() ==> tells(
            events[j].1,
            facts[events[j].0],
        )
}

/// The stage is one that a task with these facts can be in.
pub open spec fn on_course(stage: Stage, named: bool, force: bool, facts: Facts) -> bool {
    match stage {
        Stage::Probe => named,
        Stage::Fetch => named && !(facts.exists && !force),
        Stage::Queued => named && !(facts.exists && !force) && facts.fetched,
        Stage::Write => named && !(facts.exists && !force) && facts.fetched,
        Stage::Done(outcome) => outcome == settled(named, force, facts),
    }
}

/// Every task of a run is on course.
pub open spec fn all_on_course(
    stages: Seq<Stage>,
    pins: Seq<PinView>,
    force: bool,
    facts: Seq<Facts>,
) -> bool {
    &&& stages.len() == pins.len()
    &&& forall|i: int|
        0 <= i < stages.len() ==> on_course(
            #[trigger] stages[i],
            file_name_of(pins[i]) is Some,
            force,
            facts[i],
        )
}

/// Tasks do not disturb each other: under truthful reports, however they interleave,
/// every task stays on the course that its own facts lay out, so a task that is over
/// has ended as [`settled`] says.
pub proof fn tasks_stay_on_course(
    pins: Seq<PinView>,
    capacity: nat,
    force: bool,
    facts: Seq<Facts>,
    events: Seq<(int, Event)>,
)
    requires
        facts.len() == pins.len(),
        truthful(events, facts),
    ensures
        all_on_course(run(first_stages(pins), capacity, force, events), pins, force, facts),
    decreases events.len(),
{
    if events.len() > 0 {
        tasks_stay_on_course(pins, capacity, force, facts, events.drop_last());
    }
}

/// Counting after a task that was written is given another stage: the new tally with
/// one written task more is the old tally with the new stage counted.
pub proof fn tally_after_update(stages: Seq<Stage>, index: int, stage: Stage)
    requires
        0 <= index < stages.len(),
        stages[index] == Stage::Done(Outcome::Written),
    ensures
        counted(tally(stages.update(index, stage)), Stage::Done(Outcome::Written)) == counted(
            tally(stages),
            stage,
        ),
    decreases stages.len(),
{
    let changed = stages.update(index, stage);
    if index == stages.len() - 1 {
        assert(changed.drop_last() =~= stages.drop_last());
    } else {
        tally_after_update(stages.drop_last(), index, stage);
        assert(changed.drop_last() =~= stages.drop_last().update(index, stage));
    }
}

/// A job whose tasks all ended the same way reports them all under that way.
pub proof fn tally_of_uniform(stages: Seq<Stage>, outcome: Outcome)
    requires
        forall|i: int| 0 <= i < stages.len() ==> stages[i] == Stage::Done(outcome),
    ensures
        tally(stages) == counted_times(outcome, stages.len()),
    decreases stages.len(),
{
    if stages.len() > 0 {
        tally_of_uniform(stages.drop_last(), outcome);
    }
}

/// The report of `times` tasks that all ended as `outcome`.
pub open spec fn counted_times(outcome: Outcome, times: nat) -> ReportView {
    match outcome {
        Outcome::Written => ReportView { written: times, skipped: 0, failed: 0 },
        Outcome::Skipped => ReportView { written: 0, skipped: times, failed: 0 },
        Outcome::Failed(_) => ReportView { written: 0, skipped: 0, failed: times },
    }
}

/// No task is left unresolved: a complete job reports every task exactly once.
pub proof fn complete_job_reports_every_task(stages: Seq<Stage>)
    requires
        complete(stages),
    ensures
        tally(stages).written + tally(stages).skipped + tally(stages).failed == stages.len(),
    decreases stages.len(),
{
    if stages.len() > 0 {
        complete_job_reports_every_task(stages.drop_last());
    }
}

/// One failure stays one failure. Take any number of pins that all have a file name
/// and all need writing, and let the fetch of pin `k` fail while every other fetch
/// and every write succeeds. Then, however the tasks interleave, a job that has
/// completed has written all pictures but one and reports a single failure.
pub proof fn one_failed_fetch_fails_one_task(
    pins: Seq<PinView>,
    k: int,
    capacity: nat,
    force: bool,
    facts: Seq<Facts>,
    events: Seq<(int, Event)>,
)
    requires
        0 <= k < pins.len(),
        facts.len() == pins.len(),
        forall|i: int| 0 <= i < pins.len() ==> file_name_of(#[trigger] pins[i]) is Some,
        forall|i: int|
            0 <= i < pins.len() ==> {
                &&& !((#[trigger] facts[i]).exists && !force)
                &&& facts[i].fetched == (i != k)
                &&& facts[i].stored
            },
        truthful(events, facts),
        complete(run(first_stages(pins), capacity, force, events)),
    ensures
        tally(run(first_stages(pins), capacity, force, events)) == (ReportView {
            written: (pins.len() - 1) as nat,
            skipped: 0,
            failed: 1,
        }),
{
    let end = run(first_stages(pins), capacity, force, events);
    tasks_stay_on_course(pins, capacity, force, facts, events);
    let written = Stage::Done(Outcome::Written);
    let failed = Stage::Done(Outcome::Failed(Failure::Fetch));
    assert forall|i: int| 0 <= i < end.len() implies #[trigger] end[i] == (if i == k {
        failed
    } else {
        written
    }) by {}
    let uniform = end.update(k, written);
    tally_of_uniform(uniform, Outcome::Written);
    tally_after_update(uniform, k, failed);
    assert(uniform.update(k, failed) =~= end);
}

/// The files a store holds after a run: those it held before, and those of the pins
/// whose task ended in [`Outcome::Written`].
pub open spec fn store_after(
    store: Set<Seq<char>>,
    pins: Seq<PinView>,
    stages: Seq<Stage>,
) -> Set<Seq<char>> {
    Set::new(
        |name: Seq<char>|
            store.contains(name) || exists|i: int|
                0 <= i < pins.len() && #[trigger] stages[i] == Stage::Done(Outcome::Written)
                    && file_name_of(pins[i]) == Some(name),
    )
}

/// A task that only looks: it waits to probe, or was skipped.
pub open spec fn only_looked(stage: Stage) -> bool {
    stage == Stage::Probe || stage == Stage::Done(Outcome::Skipped)
}

/// A second run without `force` touches nothing. Let a first run over `pins`, without
/// `force`, end with every task written or skipped, in a store where files that were
/// seen stay. Then in any second run over the same pins, without `force` and with
/// probes that find what the first run left, no task ever gets as far as fetching, let
/// alone writing, at any instant; and once the second run is complete it reports every
/// pin as skipped.
pub proof fn second_run_skips_everything(
    pins: Seq<PinView>,
    store: Set<Seq<char>>,
    capacity: nat,
    first_facts: Seq<Facts>,
    first_events: Seq<(int, Event)>,
    facts: Seq<Facts>,
    events: Seq<(int, Event)>,
    instant: int,
)
    requires
        first_facts.len() == pins.len(),
        facts.len() == pins.len(),
        truthful(first_events, first_facts),
        forall|i: int|
            0 <= i < pins.len() && (#[trigger] first_facts[i]).exists ==> store.contains(
                file_name_of(pins[i])->0,
            ),
        ({
            let first_end = run(first_stages(pins), capacity, false, first_events);
            &&& forall|i: int|
                0 <= i < pins.len() ==> (#[trigger] first_end[i]) == Stage::Done(
                    Outcome::Written,
                ) || first_end[i] == Stage::Done(Outcome::Skipped)
            &&& forall|i: int|
                0 <= i < pins.len() && store_after(store, pins, first_end).contains(
                    file_name_of(pins[i])->0,
                ) ==> (#[trigger] facts[i]).exists
        }),
        truthful(events, facts),
        0 <= instant <= events.len(),
    ensures
        ({
            let now = run(first_stages(pins), capacity, false, events.take(instant));
            &&& now.len() == pins.len()
            &&& forall|i: int| 0 <= i < now.len() ==> only_looked(#[trigger] now[i])
            &&& writing(now) == 0
            &&& complete(now) ==> tally(now) == (ReportView {
                written: 0,
                skipped: pins.len(),
                failed: 0,
            })
        }),
{
    let first_end = run(first_stages(pins), capacity, false, first_events);
    tasks_stay_on_course(pins, capacity, false, first_facts, first_events);
    let so_far = events.take(instant);
    tasks_stay_on_course(pins, capacity, false, facts, so_far);
    let now = run(first_stages(pins), capacity, false, so_far);
    assert forall|i: int| 0 <= i < pins.len() implies file_name_of(pins[i]) is Some && (
    #[trigger] facts[i]).exists by {
        assert(first_end[i] is Done);
    }
    nobody_writes(now);
    if complete(now) {
        tally_of_uniform(now, Outcome::Skipped);
    }
}

/// Where every task only looked, none writes.
pub proof fn nobody_writes(stages: Seq<Stage>)
    requires
        forall|i: int| 0 <= i < stages.len() ==> only_looked(#[trigger] stages[i]),
    ensures
        writing(stages) == 0,
    decreases stages.len(),
{
    if stages.len() > 0 {
        nobody_writes(stages.drop_last());
    }
}

} // verus!
