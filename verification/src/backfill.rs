//! The one-time import of a project's local history: what a run does next, as
//! a function of what it has learnt so far.
//!
//! The surroundings ask the server, read the local stores and import sessions;
//! each answer is handed to [`Backfill::step`], which says what to do next.

use vstd::prelude::*;

use crate::report::BackfillReport;
use crate::sessions::{select_sessions, SessionRef};

verus! {

/// Once this many events are imported, no further session is started.
pub const MAX_EVENTS_TOTAL: usize = 50_000;

/// How a run was asked to behave.
#[derive(Debug, Clone, Copy, PartialEq, Eq, Structural)]
pub struct BackfillOptions {
    /// The run was started automatically at the start of a session.
    pub auto: bool,
    /// Only plan the import.
    pub dry_run: bool,
    /// Import into a store that already holds sessions.
    pub force: bool,
    /// The most sessions to import; zero counts as one.
    pub max_sessions: usize,
}

/// Whether a run goes ahead.
#[derive(Debug, Clone, Copy, PartialEq, Eq, Structural)]
pub enum Gate {
    /// The automatic run was opted out of: stop, without contacting the
    /// server, after marking the attempt if `write_sentinel` says so.
    OptedOut { write_sentinel: bool },
    /// Resolve the scope and start.
    Proceed,
}

/// An automatic run goes ahead only when the configuration has it on.
pub open spec fn gate_of(options: BackfillOptions, backfill_on_start: bool) -> Gate {
    if options.auto && !backfill_on_start {
        Gate::OptedOut { write_sentinel: !options.dry_run }
    } else {
        Gate::Proceed
    }
}

/// Decides whether a run goes ahead.
pub fn gate(options: BackfillOptions, backfill_on_start: bool) -> (gate: Gate)
    ensures
        gate == gate_of(options, backfill_on_start),
{
    if options.auto && !backfill_on_start {
        Gate::OptedOut { write_sentinel: !options.dry_run }
    } else {
        Gate::Proceed
    }
}

/// What a run is waiting for.
#[derive(Debug, Clone, Copy, PartialEq, Eq, Structural)]
pub enum Stage {
    /// Whether the project's store is empty.
    CheckStore,
    /// The local sessions.
    ListSessions,
    /// The result of importing a session.
    Importing,
    /// Nothing: the run is over.
    Finished,
}

/// What a run has learnt.
#[derive(Debug)]
pub enum Event {
    /// Whether the project's store is empty.
    Store { empty: bool },
    /// The local sessions of this working directory.
    Sessions(Vec<SessionRef>),
    /// The session was imported, with this many events.
    Imported(usize),
    /// The import of the session failed.
    Failed,
}

/// What a run does next.
#[derive(Debug)]
pub enum Action {
    /// Ask the server whether the project's store is empty.
    CheckStore,
    /// List the local sessions.
    ListSessions,
    /// Import this session.
    Import(SessionRef),
    /// Mark the attempt if `write_sentinel` says so, then emit the report.
    Finish { write_sentinel: bool },
}

/// A run in progress.
#[derive(Debug)]
pub struct Backfill {
    pub options: BackfillOptions,
    pub stage: Stage,
    pub report: BackfillReport,
    /// The selected sessions that were not started yet, newest first.
    pub queue: Vec<SessionRef>,
}

/// How far a run has come.
pub struct Progress {
    pub options: BackfillOptions,
    pub stage: Stage,
    pub report: BackfillReport,
    pub queue: Seq<SessionRef>,
}

impl View for Backfill {
    type V = Progress;

    open spec fn view(&self) -> Progress {
        Progress {
            options: self.options,
            stage: self.stage,
            report: self.report,
            queue: self.queue@,
        }
    }
}

/// The report of a run that has done nothing yet.
pub open spec fn blank_report(
    options: BackfillOptions,
    workspace: String,
    project: String,
) -> BackfillReport {
    BackfillReport {
        workspace,
        project,
        selected: 0,
        imported_sessions: 0,
        imported_events: 0,
        skipped_for_cap: 0,
        failed_sessions: 0,
        skipped_non_empty: false,
        dry_run: options.dry_run,
    }
}

/// The run before it has learnt anything, and its first action: the store is
/// checked unless the import is forced.
pub open spec fn opening(options: BackfillOptions, workspace: String, project: String) -> (
    Progress,
    Action,
) {
    let report = blank_report(options, workspace, project);
    let (stage, action) = if options.force {
        (Stage::ListSessions, Action::ListSessions)
    } else {
        (Stage::CheckStore, Action::CheckStore)
    };
    (Progress { options, stage, report, queue: Seq::empty() }, action)
}

/// The run is over with the given report. The attempt is marked unless the run
/// only planned.
pub open spec fn over(now: Progress, report: BackfillReport) -> (Progress, Action) {
    (
        Progress { stage: Stage::Finished, report, queue: Seq::empty(), ..now },
        Action::Finish { write_sentinel: !report.dry_run },
    )
}

/// The next import: the newest of the queued sessions, unless the cap on
/// events is reached, which skips all of them.
pub open spec fn onward(now: Progress, report: BackfillReport, queue: Seq<SessionRef>) -> (
    Progress,
    Action,
) {
    if queue.len() == 0 {
        over(now, report)
    } else if report.imported_events >= MAX_EVENTS_TOTAL {
        over(
            now,
            BackfillReport {
                skipped_for_cap: (report.skipped_for_cap + queue.len()) as usize,
                ..report
            },
        )
    } else {
        (
            Progress { stage: Stage::Importing, report, queue: queue.drop_first(), ..now },
            Action::Import(queue.first()),
        )
    }
}

/// The most sessions a run selects.
pub open spec fn session_cap(options: BackfillOptions) -> nat {
    if options.max_sessions == 0 {
        1
    } else {
        options.max_sessions as nat
    }
}

/// What a run does with what it has learnt.
pub open spec fn step_of(now: Progress, event: Event) -> (Progress, Action) {
    match event {
        Event::Store { empty } => if empty {
            (Progress { stage: Stage::ListSessions, ..now }, Action::ListSessions)
        } else {
            over(now, BackfillReport { skipped_non_empty: true, ..now.report })
        },
        Event::Sessions(candidates) => {
            let picked = crate::sessions::selection(candidates@, session_cap(now.options));
            let report = BackfillReport { selected: picked.len() as usize, ..now.report };
            if now.report.dry_run {
                over(now, report)
            } else {
                onward(now, report, picked)
            }
        },
        Event::Imported(events) => onward(
            now,
            BackfillReport {
                imported_sessions: (now.report.imported_sessions + 1) as usize,
                imported_events: (now.report.imported_events + events) as usize,
                ..now.report
            },
            now.queue,
        ),
        Event::Failed => onward(
            now,
            BackfillReport {
                failed_sessions: (now.report.failed_sessions + 1) as usize,
                ..now.report
            },
            now.queue,
        ),
    }
}

impl Progress {
    /// Every selected session is imported, failed, skipped, being imported or
    /// still queued; nothing is selected before the sessions are listed,
    /// nothing is imported by a run that only plans or that found the store
    /// populated, and events are only counted along with sessions.
    pub open spec fn accounted(self) -> bool {
        let report = self.report;
        let tried = report.imported_sessions + report.failed_sessions;
        &&& report.dry_run == self.options.dry_run
        &&& report.imported_sessions == 0 ==> report.imported_events == 0
        &&& match self.stage {
            Stage::CheckStore | Stage::ListSessions => {
                &&& report.selected == 0
                &&& tried == 0
                &&& report.skipped_for_cap == 0
                &&& !report.skipped_non_empty
                &&& self.queue.len() == 0
            },
            Stage::Importing => {
                &&& report.selected == tried + 1 + self.queue.len()
                &&& report.imported_events < MAX_EVENTS_TOTAL
                &&& report.skipped_for_cap == 0
                &&& !report.skipped_non_empty
                &&& !report.dry_run
            },
            Stage::Finished => {
                &&& report.skipped_non_empty || report.dry_run ==> tried == 0
                    && report.skipped_for_cap == 0
                &&& report.skipped_non_empty ==> report.selected == 0
                &&& !report.skipped_non_empty && !report.dry_run ==> report.selected == tried
                    + report.skipped_for_cap
                &&& report.skipped_for_cap > 0 ==> report.imported_events >= MAX_EVENTS_TOTAL
                &&& self.queue.len() == 0
            },
        }
    }

    /// The event is one that the run is waiting for, and the events it counts
    /// can be counted.
    pub open spec fn awaits(self, event: Event) -> bool {
        match event {
            Event::Store { .. } => self.stage == Stage::CheckStore,
            Event::Sessions(_) => self.stage == Stage::ListSessions,
            Event::Imported(events) => self.stage == Stage::Importing
                && self.report.imported_events + events <= usize::MAX,
            Event::Failed => self.stage == Stage::Importing,
        }
    }
}

impl Backfill {
    /// Starts a run for a project whose scope is resolved.
    pub fn start(options: BackfillOptions, workspace: String, project: String) -> (started: (
        Backfill,
        Action,
    ))
        ensures
            (started.0@, started.1) == opening(options, workspace, project),
            started.0@.accounted(),
    {
        let report = BackfillReport {
            workspace,
            project,
            selected: 0,
            imported_sessions: 0,
            imported_events: 0,
            skipped_for_cap: 0,
            failed_sessions: 0,
            skipped_non_empty: false,
            dry_run: options.dry_run,
        };
        if options.force {
            (
                Backfill { options, stage: Stage::ListSessions, report, queue: Vec::new() },
                Action::ListSessions,
            )
        } else {
            (
                Backfill { options, stage: Stage::CheckStore, report, queue: Vec::new() },
                Action::CheckStore,
            )
        }
    }

    /// Ends the run.
    fn conclude(&mut self) -> (action: Action)
        ensures
            (final(self)@, action) == over(old(self)@, old(self).report),
    {
        self.stage = Stage::Finished;
        self.queue.clear();
        Action::Finish { write_sentinel: !self.report.dry_run }
    }

    /// Goes on to the next session, the newest one first.
    fn proceed(&mut self) -> (action: Action)
        requires
            old(self).report.skipped_for_cap + old(self).queue@.len() <= usize::MAX,
        ensures
            (final(self)@, action) == onward(old(self)@, old(self).report, old(self).queue@),
    {
        if self.report.imported_events >= MAX_EVENTS_TOTAL {
            self.report.skipped_for_cap = self.report.skipped_for_cap + self.queue.len();
            return self.conclude();
        }
        if self.queue.len() == 0 {
            return self.conclude();
        }
        self.stage = Stage::Importing;
        let session = self.queue.remove(0);
        assert(self.queue@ == old(self).queue@.drop_first());
        Action::Import(session)
    }

    /// Takes what the run has learnt and says what it does next.
    pub fn step(&mut self, event: Event) -> (action: Action)
        requires
            old(self)@.accounted(),
            old(self)@.awaits(event),
        ensures
            (final(self)@, action) == step_of(old(self)@, event),
            final(self)@.accounted(),
    {
        match event {
            Event::Store { empty } => {
                if empty {
                    self.stage = Stage::ListSessions;
                    Action::ListSessions
                } else {
                    self.report.skipped_non_empty = true;
                    self.conclude()
                }
            },
            Event::Sessions(candidates) => {
                let cap: usize = if self.options.max_sessions == 0 {
                    1
                } else {
                    self.options.max_sessions
                };
                let picked = select_sessions(candidates, cap);
                self.report.selected = picked.len();
                if self.report.dry_run {
                    self.conclude()
                } else {
                    self.queue = picked;
                    self.proceed()
                }
            },
            Event::Imported(events) => {
                self.report.imported_sessions = self.report.imported_sessions + 1;
                self.report.imported_events = self.report.imported_events + events;
                self.proceed()
            },
            Event::Failed => {
                self.report.failed_sessions = self.report.failed_sessions + 1;
                self.proceed()
            },
        }
    }
}

/// How far a run has come, and what it does next, once it has learnt `events`.
pub open spec fn reached(
    options: BackfillOptions,
    workspace: String,
    project: String,
    events: Seq<Event>,
) -> (Progress, Action)
    decreases events.len(),
{
    if events.len() == 0 {
        opening(options, workspace, project)
    } else {
        let before = reached(options, workspace, project, events.drop_last());
        step_of(before.0, events.last())
    }
}

/// A run can learn `events`: each of them is one that it was waiting for.
pub open spec fn learns(
    options: BackfillOptions,
    workspace: String,
    project: String,
    events: Seq<Event>,
) -> bool
    decreases events.len(),
{
    events.len() > 0 ==> {
        let before = reached(options, workspace, project, events.drop_last());
        learns(options, workspace, project, events.drop_last()) && before.0.awaits(events.last())
    }
}

/// The sessions whose import a run has started, in order, once it has learnt
/// `events`.
pub open spec fn imports(
    options: BackfillOptions,
    workspace: String,
    project: String,
    events: Seq<Event>,
) -> Seq<SessionRef>
    decreases events.len(),
{
    if events.len() == 0 {
        Seq::empty()
    } else {
        let before = imports(options, workspace, project, events.drop_last());
        match reached(options, workspace, project, events).1 {
            Action::Import(session) => before.push(session),
            _ => before,
        }
    }
}

/// Whatever a run learns, every selected session is accounted for, and the run
/// goes by the options that it was started with.
pub proof fn every_session_is_accounted_for(
    options: BackfillOptions,
    workspace: String,
    project: String,
    events: Seq<Event>,
)
    requires
        learns(options, workspace, project, events),
    ensures
        reached(options, workspace, project, events).0.accounted(),
        reached(options, workspace, project, events).0.options == options,
    decreases events.len(),
{
    if events.len() > 0 {
        every_session_is_accounted_for(options, workspace, project, events.drop_last());
        if let Event::Sessions(candidates) = events.last() {
            let cap = session_cap(options);
            crate::sessions::a_selection_exists(candidates@, cap);
            crate::sessions::the_newest_sessions_are_kept(
                candidates@,
                cap,
                crate::sessions::selection(candidates@, cap),
            );
            assert(candidates@.len() == candidates.len());
        }
    }
}

/// A run is over exactly when its action is to finish, and every ending marks
/// the attempt, except that of a run that only plans, which never does.
pub proof fn only_real_runs_mark_the_attempt(
    options: BackfillOptions,
    backfill_on_start: bool,
    workspace: String,
    project: String,
    events: Seq<Event>,
)
    requires
        learns(options, workspace, project, events),
    ensures
        ({
            let (now, action) = reached(options, workspace, project, events);
            &&& now.stage == Stage::Finished <==> action is Finish
            &&& action matches Action::Finish { write_sentinel } ==> write_sentinel
                == !options.dry_run
        }),
        gate_of(options, backfill_on_start) matches Gate::OptedOut { write_sentinel }
            ==> write_sentinel == !options.dry_run,
    decreases events.len(),
{
    every_session_is_accounted_for(options, workspace, project, events);
    if events.len() > 0 {
        every_session_is_accounted_for(options, workspace, project, events.drop_last());
    }
}

/// The position at which a run learns the local sessions.
pub open spec fn listing_at(options: BackfillOptions) -> int {
    if options.force {
        0
    } else {
        1
    }
}

/// What a run has started, what it has counted and what is still queued fit
/// together at every point.
proof fn imports_and_queue(
    options: BackfillOptions,
    workspace: String,
    project: String,
    events: Seq<Event>,
)
    requires
        learns(options, workspace, project, events),
    ensures
        ({
            let now = reached(options, workspace, project, events).0;
            let started = imports(options, workspace, project, events);
            let at = listing_at(options);
            let tried = now.report.imported_sessions + now.report.failed_sessions;
            &&& events.len() <= at ==> {
                &&& started.len() == 0
                &&& tried == 0
                &&& events.len() == 0 ==> now.stage == if options.force {
                    Stage::ListSessions
                } else {
                    Stage::CheckStore
                }
                &&& now.stage == Stage::CheckStore ==> events.len() == 0
                &&& events.len() == 1 ==> (events[0] matches Event::Store { empty } && now.stage
                    == if empty {
                    Stage::ListSessions
                } else {
                    Stage::Finished
                })
            }
            &&& events.len() > at ==> {
                &&& events[at] is Sessions
                &&& !options.force ==> events[0] == (Event::Store { empty: true })
                &&& now.stage == Stage::Importing || now.stage == Stage::Finished
                &&& ({
                    let picked = crate::sessions::selection(
                        events[at]->Sessions_0@,
                        session_cap(options),
                    );
                    &&& now.report.selected == picked.len()
                    &&& events.len() == at + 1 + tried
                    &&& started.len() == tried + if now.stage == Stage::Importing {
                        1int
                    } else {
                        0
                    }
                    &&& started.len() <= picked.len()
                    &&& started == picked.take(started.len() as int)
                    &&& now.stage == Stage::Importing ==> now.queue == picked.skip(
                        started.len() as int,
                    )
                })
            }
        }),
    decreases events.len(),
{
    every_session_is_accounted_for(options, workspace, project, events);
    if events.len() > 0 {
        let before = events.drop_last();
        let at = listing_at(options);
        every_session_is_accounted_for(options, workspace, project, before);
        imports_and_queue(options, workspace, project, before);
        let was = reached(options, workspace, project, before).0;
        let now = reached(options, workspace, project, events).0;
        let old_started = imports(options, workspace, project, before);
        let started = imports(options, workspace, project, events);
        if events.len() == at + 1 {
            assert(was.stage == Stage::ListSessions);
            let candidates = events.last()->Sessions_0;
            let cap = session_cap(options);
            let picked = crate::sessions::selection(candidates@, cap);
            crate::sessions::a_selection_exists(candidates@, cap);
            crate::sessions::the_newest_sessions_are_kept(candidates@, cap, picked);
            assert(candidates@.len() == candidates.len());
            assert(events[at] == events.last());
            if now.stage == Stage::Importing {
                assert(started == seq![picked.first()]);
                assert(started == picked.take(1));
                assert(now.queue == picked.skip(1));
            } else {
                assert(started == picked.take(0));
            }
        } else if events.len() > at + 1 {
            assert(was.stage == Stage::Importing);
            assert(before[at] == events[at]);
            assert(before[0] == events[0]);
            let picked = crate::sessions::selection(
                events[at]->Sessions_0@,
                session_cap(options),
            );
            if now.stage == Stage::Importing {
                let n = old_started.len() as int;
                assert(was.queue.len() > 0);
                assert(was.queue.first() == picked[n]);
                assert(started == old_started.push(picked[n]));
                assert(started == picked.take(n + 1));
                assert(now.queue == picked.skip(n + 1));
            }
        }
    }
}

/// Only an empty store is imported into, unless the import is forced; and a
/// run that only plans imports nothing.
pub proof fn a_populated_store_is_left_alone(
    options: BackfillOptions,
    workspace: String,
    project: String,
    events: Seq<Event>,
)
    requires
        learns(options, workspace, project, events),
        imports(options, workspace, project, events).len() > 0,
    ensures
        !options.dry_run,
        options.force || events[0] == (Event::Store { empty: true }),
{
    imports_and_queue(options, workspace, project, events);
    every_session_is_accounted_for(options, workspace, project, events);
}

/// The sessions are imported in order from the newest of the selected ones.
pub proof fn sessions_are_imported_newest_first(
    options: BackfillOptions,
    workspace: String,
    project: String,
    events: Seq<Event>,
)
    requires
        learns(options, workspace, project, events),
        events.len() > listing_at(options),
    ensures
        events[listing_at(options)] matches Event::Sessions(candidates) && {
            let picked = crate::sessions::selection(candidates@, session_cap(options));
            let started = imports(options, workspace, project, events);
            &&& started.len() <= picked.len()
            &&& started == picked.take(started.len() as int)
            &&& reached(options, workspace, project, events).0.report.selected == picked.len()
        },
{
    imports_and_queue(options, workspace, project, events);
}

/// The cap on events leaves out the oldest sessions: the sessions that it
/// skips are the selected ones that were not started, and none of them is newer
/// than one whose import was started.
pub proof fn the_cap_leaves_out_the_oldest_sessions(
    options: BackfillOptions,
    workspace: String,
    project: String,
    events: Seq<Event>,
)
    requires
        learns(options, workspace, project, events),
        events.len() > listing_at(options),
    ensures
        events[listing_at(options)] matches Event::Sessions(candidates) && {
            let picked = crate::sessions::selection(candidates@, session_cap(options));
            let started = imports(options, workspace, project, events);
            let now = reached(options, workspace, project, events).0;
            &&& now.stage == Stage::Finished && !options.dry_run ==> now.report.skipped_for_cap
                == picked.len() - started.len()
            &&& forall|i: int, j: int|
                0 <= i < started.len() <= j < picked.len() ==> !(
                #[trigger] started[i]).updated_at.before((#[trigger] picked[j]).updated_at)
        },
{
    imports_and_queue(options, workspace, project, events);
    every_session_is_accounted_for(options, workspace, project, events);
    let candidates = events[listing_at(options)]->Sessions_0;
    let cap = session_cap(options);
    let picked = crate::sessions::selection(candidates@, cap);
    let started = imports(options, workspace, project, events);
    crate::sessions::a_selection_exists(candidates@, cap);
    crate::sessions::the_newest_sessions_are_kept(candidates@, cap, picked);
    assert forall|i: int, j: int| 0 <= i < started.len() <= j < picked.len() implies !(
    #[trigger] started[i]).updated_at.before((#[trigger] picked[j]).updated_at) by {
        assert(started[i] == picked[i]);
        assert(!crate::sessions::listed_before(picked[j], picked[i]));
    }
}

/// A finished run has tried every selected session, whatever failed, except
/// those that the cap on events left out, for which some session must have been
/// imported; and it was over after one event for each session it tried.
pub proof fn every_session_is_tried_or_capped(
    options: BackfillOptions,
    workspace: String,
    project: String,
    events: Seq<Event>,
)
    requires
        learns(options, workspace, project, events),
        reached(options, workspace, project, events).0.stage == Stage::Finished,
        !options.dry_run,
        options.force || events[0] == (Event::Store { empty: true }),
    ensures
        ({
            let report = reached(options, workspace, project, events).0.report;
            let tried = imports(options, workspace, project, events).len();
            &&& report.imported_sessions + report.failed_sessions == tried
            &&& report.selected == tried + report.skipped_for_cap
            &&& report.skipped_for_cap > 0 ==> report.imported_events >= MAX_EVENTS_TOTAL
                && report.imported_sessions > 0
            &&& events.len() == listing_at(options) + 1 + tried
        }),
{
    imports_and_queue(options, workspace, project, events);
    every_session_is_accounted_for(options, workspace, project, events);
}

/// A session that fails to import does not stop the run: the next one is
/// started as if it had been imported without events. No session is started
/// once the cap on events is reached.
pub proof fn a_failure_does_not_stop_the_run(now: Progress, events: usize)
    requires
        now.stage == Stage::Importing,
        now.accounted(),
        now.awaits(Event::Imported(events)),
    ensures
        step_of(now, Event::Failed).1 == step_of(now, Event::Imported(0)).1,
        now.queue.len() > 0 ==> step_of(now, Event::Failed).1 == Action::Import(
            now.queue.first(),
        ),
        step_of(now, Event::Imported(events)).1 is Import ==> now.report.imported_events + events
            < MAX_EVENTS_TOTAL,
{
}

/// The events that the imports among `events` brought, added up.
pub open spec fn events_brought(events: Seq<Event>) -> int
    decreases events.len(),
{
    if events.len() == 0 {
        0
    } else {
        events_brought(events.drop_last()) + match events.last() {
            Event::Imported(n) => n as int,
            _ => 0,
        }
    }
}

/// The report counts what happened: the sessions that failed, the sessions that
/// were imported and the events that these brought, each by itself. It names
/// the scope that the run was started for, and it says that the store was
/// populated exactly when the run learnt that.
pub proof fn the_report_counts_what_happened(
    options: BackfillOptions,
    workspace: String,
    project: String,
    events: Seq<Event>,
)
    requires
        learns(options, workspace, project, events),
    ensures
        ({
            let report = reached(options, workspace, project, events).0.report;
            &&& report.failed_sessions == events.filter(|event: Event| event is Failed).len()
            &&& report.imported_sessions == events.filter(|event: Event| event is Imported).len()
            &&& report.imported_events == events_brought(events)
            &&& report.workspace == workspace
            &&& report.project == project
            &&& report.dry_run == options.dry_run
            &&& report.skipped_non_empty <==> events.contains(Event::Store { empty: false })
        }),
    decreases events.len(),
{
    reveal(Seq::filter);
    every_session_is_accounted_for(options, workspace, project, events);
    if events.len() > 0 {
        let before = events.drop_last();
        let populated = Event::Store { empty: false };
        every_session_is_accounted_for(options, workspace, project, before);
        the_report_counts_what_happened(options, workspace, project, before);
        assert(events == before.push(events.last()));
        if before.contains(populated) {
            assert(events[before.index_of(populated)] == populated);
        }
        if events.last() == populated {
            assert(events[events.len() - 1] == populated);
        }
        if events.contains(populated) && events.last() != populated {
            let i = events.index_of(populated);
            assert(before[i] == populated);
        }
        if let Event::Sessions(candidates) = events.last() {
            assert(candidates@.len() == candidates.len());
        }
    }
}

/// A run selects as many of the listed sessions as it was allowed to, and at
/// least one is always allowed.
pub proof fn a_run_selects_up_to_its_limit(
    options: BackfillOptions,
    workspace: String,
    project: String,
    events: Seq<Event>,
)
    requires
        learns(options, workspace, project, events),
        events.len() > listing_at(options),
    ensures
        events[if options.force {
            0int
        } else {
            1
        }] matches Event::Sessions(candidates) && {
            let selected = reached(options, workspace, project, events).0.report.selected;
            &&& selected <= candidates@.len()
            &&& selected <= options.max_sessions || selected <= 1
            &&& selected == candidates@.len() || selected == options.max_sessions || selected == 1
                && options.max_sessions == 0
        },
{
    imports_and_queue(options, workspace, project, events);
    let candidates = events[listing_at(options)]->Sessions_0;
    let cap = session_cap(options);
    crate::sessions::a_selection_exists(candidates@, cap);
    crate::sessions::the_newest_sessions_are_kept(
        candidates@,
        cap,
        crate::sessions::selection(candidates@, cap),
    );
}

/// Once the sessions are listed, a run that does more than plan starts one
/// session after the other, the next one in the order of the selection, for as
/// long as there is one and fewer than 50,000 events were imported; then it
/// finishes.
pub proof fn the_next_session_is_started_up_to_the_cap(
    options: BackfillOptions,
    workspace: String,
    project: String,
    events: Seq<Event>,
)
    requires
        learns(options, workspace, project, events),
        events.len() > listing_at(options),
    ensures
        ({
            let at: int = if options.force {
                0
            } else {
                1
            };
            let picked = crate::sessions::selection(
                events[at]->Sessions_0@,
                if options.max_sessions == 0 {
                    1
                } else {
                    options.max_sessions as nat
                },
            );
            let next = events.len() - at - 1;
            let action = reached(options, workspace, project, events).1;
            if !options.dry_run && next < picked.len() && events_brought(events) < 50_000 {
                action == Action::Import(picked[next])
            } else {
                action == (Action::Finish { write_sentinel: !options.dry_run })
            }
        }),
{
    imports_and_queue(options, workspace, project, events);
    every_session_is_accounted_for(options, workspace, project, events);
    the_report_counts_what_happened(options, workspace, project, events);
    let before = events.drop_last();
    every_session_is_accounted_for(options, workspace, project, before);
    imports_and_queue(options, workspace, project, before);
    let at = listing_at(options);
    let candidates = events[at]->Sessions_0;
    let picked = crate::sessions::selection(candidates@, session_cap(options));
    crate::sessions::a_selection_exists(candidates@, session_cap(options));
    crate::sessions::the_newest_sessions_are_kept(candidates@, session_cap(options), picked);
    assert(candidates@.len() == candidates.len());
    let (now, action) = reached(options, workspace, project, events);
    let started = imports(options, workspace, project, events);
    if events.len() > at + 1 {
        assert(before[at] == events[at]);
    }
    if now.stage == Stage::Importing {
        assert(started.last() == picked[started.len() - 1]);
    }
}

/// A run asks about the store first, unless the import is forced: then it lists
/// the sessions at once. An empty store makes it list them too; a populated one
/// ends it.
pub proof fn the_store_decides_unless_the_import_is_forced(
    options: BackfillOptions,
    workspace: String,
    project: String,
    empty: bool,
)
    ensures
        reached(options, workspace, project, Seq::empty()).1 == if options.force {
            Action::ListSessions
        } else {
            Action::CheckStore
        },
        !options.force ==> learns(options, workspace, project, seq![Event::Store { empty }])
            && reached(options, workspace, project, seq![Event::Store { empty }]).1 == if empty {
            Action::ListSessions
        } else {
            Action::Finish { write_sentinel: !options.dry_run }
        },
{
    let learnt = seq![Event::Store { empty }];
    assert(learnt.drop_last() == Seq::<Event>::empty());
    reveal_with_fuel(reached, 2);
    reveal_with_fuel(learns, 2);
}

/// A run does not go ahead exactly when it was started automatically and the
/// configuration has that off; a manual run always goes ahead.
pub proof fn only_an_unwanted_automatic_run_is_stopped(
    options: BackfillOptions,
    backfill_on_start: bool,
)
    ensures
        gate_of(options, backfill_on_start) is Proceed <==> !options.auto || backfill_on_start,
{
}

} // verus!
