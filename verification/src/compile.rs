//! The build, as a machine that is told what happened and answers with what
//! to show and what to wait for next.
//!
//! The machine does no work of its own. A driver resolves, plans, builds
//! databases and compiles; after each piece of work it hands the outcome to
//! [`compile`] and shows the reports that come back. The state says which
//! piece of work is due: units are compiled one at a time, in the order of
//! the plan, and nothing is started after a failure.

use cairo_lang_compiler::diagnostics::DiagnosticsError;
use indicatif::HumanDuration;
use std::time::Duration;
use vstd::prelude::*;
use vstd::string::StringExecFns;

verus! {

/// One buildable target of the plan.
#[derive(Clone, Debug, PartialEq, Eq)]
pub struct CompilationUnit {
    /// The name under which the unit is announced.
    pub name: String,
    /// The name of its main package.
    pub package: String,
}

/// The mathematical value of a [`CompilationUnit`].
pub ghost struct UnitView {
    pub name: Seq<char>,
    pub package: Seq<char>,
}

impl View for CompilationUnit {
    type V = UnitView;

    open spec fn view(&self) -> UnitView {
        UnitView { name: self.name@, package: self.package@ }
    }
}

/// The values of the units of a plan, in order.
pub open spec fn units_view(units: Seq<CompilationUnit>) -> Seq<UnitView> {
    units.map_values(|unit: CompilationUnit| unit@)
}

/// A line of progress: a verb and what it is said of.
#[derive(Clone, Debug, PartialEq, Eq)]
pub struct Status {
    pub verb: String,
    pub message: String,
}

/// The mathematical value of a [`Status`].
pub ghost struct StatusView {
    pub verb: Seq<char>,
    pub message: Seq<char>,
}

impl View for Status {
    type V = StatusView;

    open spec fn view(&self) -> StatusView {
        StatusView { verb: self.verb@, message: self.message@ }
    }
}

/// Something the driver shows to the user: a line of progress, or an error
/// of a collaborator in full.
#[derive(Debug, PartialEq, Eq)]
pub enum Report<E> {
    Status(Status),
    Error(E),
}

/// The mathematical value of a [`Report`].
pub ghost enum ReportView<E> {
    Status(StatusView),
    Error(E),
}

impl<E> View for Report<E> {
    type V = ReportView<E>;

    open spec fn view(&self) -> ReportView<E> {
        match self {
            Report::Status(status) => ReportView::Status(status@),
            Report::Error(error) => ReportView::Error(*error),
        }
    }
}

/// The values of a row of reports, in order.
pub open spec fn reports_view<E>(reports: Seq<Report<E>>) -> Seq<ReportView<E>> {
    reports.map_values(|report: Report<E>| report@)
}

/// How the work on a unit failed: the building of its database, or the
/// compiler.
#[derive(Debug, PartialEq, Eq)]
pub enum CompileFailure<E> {
    /// The compiler has shown its diagnostics to the user already.
    Diagnostics,
    /// Any other error; nobody has shown it yet.
    Other(E),
}

/// Why a build failed.
#[derive(Debug, PartialEq, Eq)]
pub enum BuildError<E> {
    /// The resolver's error, as it came.
    Resolution(E),
    /// The planner's error, as it came.
    Planning(E),
    /// A unit did not compile: its database could not be built, or the
    /// compiler failed on it.
    Compilation { package: String },
    /// The driver reported something that the machine was not waiting for.
    OutOfTurn,
}

/// The mathematical value of a [`BuildError`].
pub ghost enum BuildErrorView<E> {
    Resolution(E),
    Planning(E),
    Compilation { package: Seq<char> },
    OutOfTurn,
}

impl<E> View for BuildError<E> {
    type V = BuildErrorView<E>;

    open spec fn view(&self) -> BuildErrorView<E> {
        match self {
            BuildError::Resolution(error) => BuildErrorView::Resolution(*error),
            BuildError::Planning(error) => BuildErrorView::Planning(*error),
            BuildError::Compilation { package } => BuildErrorView::Compilation {
                package: package@,
            },
            BuildError::OutOfTurn => BuildErrorView::OutOfTurn,
        }
    }
}

impl<E> BuildError<E> {
    /// The sentence that tells a user of the failure, where the build has
    /// one of its own: for a unit that did not compile it names the
    /// package. An error of a collaborator speaks for itself.
    pub fn message(&self) -> (message: Option<String>)
        ensures
            match self@ {
                BuildErrorView::Compilation { package } => message matches Some(text) && text@
                    == failure_message(package),
                BuildErrorView::OutOfTurn => message matches Some(text) && text@
                    == "build driven out of turn"@,
                _ => message is None,
            },
    {
        match self {
            BuildError::Compilation { package } => Some(
                String::from_str("could not compile `").concat(package.as_str()).concat(
                    "` due to previous error",
                ),
            ),
            BuildError::OutOfTurn => Some(String::from_str("build driven out of turn")),
            _ => None,
        }
    }
}

/// What a unit is waiting for.
#[derive(Clone, Copy, Debug, PartialEq, Eq)]
pub enum UnitPhase {
    /// To be announced.
    Pending,
    /// The outcome of building its database.
    Database,
    /// The outcome of compiling it.
    Compiler,
}

/// What happened to a unit.
#[derive(Debug, PartialEq, Eq)]
pub enum UnitEvent<E> {
    /// Its turn has come.
    Start,
    DatabaseBuilt,
    DatabaseFailed(CompileFailure<E>),
    Compiled,
    CompileFailed(CompileFailure<E>),
}

/// Where a unit stands after a step.
#[derive(Debug, PartialEq, Eq)]
pub enum UnitNext<E> {
    /// It waits for the outcome of more work.
    Await(UnitPhase),
    /// It is compiled.
    Succeeded,
    /// It failed, and the build with it.
    Failed(BuildError<E>),
}

/// The mathematical value of a [`UnitNext`].
pub ghost enum UnitNextView<E> {
    Await(UnitPhase),
    Succeeded,
    Failed(BuildErrorView<E>),
}

impl<E> View for UnitNext<E> {
    type V = UnitNextView<E>;

    open spec fn view(&self) -> UnitNextView<E> {
        match self {
            UnitNext::Await(phase) => UnitNextView::Await(*phase),
            UnitNext::Succeeded => UnitNextView::Succeeded,
            UnitNext::Failed(error) => UnitNextView::Failed(error@),
        }
    }
}

/// The answer to an event of a unit: what to show, and where the unit
/// stands.
#[derive(Debug, PartialEq, Eq)]
pub struct UnitStep<E> {
    pub reports: Vec<Report<E>>,
    pub next: UnitNext<E>,
}

/// The mathematical value of a [`UnitStep`].
pub ghost struct UnitStepView<E> {
    pub reports: Seq<ReportView<E>>,
    pub next: UnitNextView<E>,
}

impl<E> View for UnitStep<E> {
    type V = UnitStepView<E>;

    open spec fn view(&self) -> UnitStepView<E> {
        UnitStepView { reports: reports_view(self.reports@), next: self.next@ }
    }
}

/// The line that announces a unit.
pub open spec fn compiling_status(unit: UnitView) -> StatusView {
    StatusView { verb: "Compiling"@, message: unit.name }
}

/// The sentence that names the package of the unit that failed.
pub open spec fn failure_message(package: Seq<char>) -> Seq<char> {
    "could not compile `"@ + package + "` due to previous error"@
}

/// Whether a failure is kept from the user because the compiler has shown
/// it already.
pub open spec fn is_suppressed<E>(failure: CompileFailure<E>) -> bool {
    failure is Diagnostics
}

/// What is shown of the failure of a unit: nothing where it is
/// suppressed, else the error, once.
pub open spec fn failure_reports<E>(failure: CompileFailure<E>) -> Seq<ReportView<E>> {
    match failure {
        CompileFailure::Diagnostics => Seq::empty(),
        CompileFailure::Other(error) => seq![ReportView::Error(error)],
    }
}

/// The step of one unit.
pub open spec fn unit_step<E>(unit: UnitView, phase: UnitPhase, event: UnitEvent<E>) -> UnitStepView<
    E,
> {
    match (phase, event) {
        (UnitPhase::Pending, UnitEvent::Start) => UnitStepView {
            reports: seq![ReportView::Status(compiling_status(unit))],
            next: UnitNextView::Await(UnitPhase::Database),
        },
        (UnitPhase::Database, UnitEvent::DatabaseBuilt) => UnitStepView {
            reports: Seq::empty(),
            next: UnitNextView::Await(UnitPhase::Compiler),
        },
        (UnitPhase::Database, UnitEvent::DatabaseFailed(failure)) => UnitStepView {
            reports: failure_reports(failure),
            next: UnitNextView::Failed(BuildErrorView::Compilation { package: unit.package }),
        },
        (UnitPhase::Compiler, UnitEvent::Compiled) => UnitStepView {
            reports: Seq::empty(),
            next: UnitNextView::Succeeded,
        },
        (UnitPhase::Compiler, UnitEvent::CompileFailed(failure)) => UnitStepView {
            reports: failure_reports(failure),
            next: UnitNextView::Failed(BuildErrorView::Compilation { package: unit.package }),
        },
        _ => UnitStepView {
            reports: Seq::empty(),
            next: UnitNextView::Failed(BuildErrorView::OutOfTurn),
        },
    }
}

/// An error of a collaborator, as `anyhow` carries it.
#[verifier::external_type_specification]
#[verifier::external_body]
pub struct ExError(anyhow::Error);

/// Whether the error holds a `DiagnosticsError` of the compiler: the
/// compiler's word that it has shown its diagnostics itself.
pub uninterp spec fn holds_diagnostics(error: anyhow::Error) -> bool;

/// `anyhow::Error::downcast_ref` looks for a `DiagnosticsError` of the
/// compiler in the error. What it finds depends on the error alone;
/// nothing else is claimed of it.
#[verifier::external_body]
fn is_diagnostics_error(error: &anyhow::Error) -> (found: bool)
    ensures
        found == holds_diagnostics(*error),
{
    error.downcast_ref::<DiagnosticsError>().is_some()
}

/// Sorts an error of a collaborator: it is a diagnostics failure where it
/// holds the compiler's own diagnostics error, and else it is kept as it
/// came.
pub fn classify(error: anyhow::Error) -> (failure: CompileFailure<anyhow::Error>)
    ensures
        failure == if holds_diagnostics(error) {
            CompileFailure::Diagnostics
        } else {
            CompileFailure::Other(error)
        },
{
    let diagnostics = is_diagnostics_error(&error);
    classify_as(error, diagnostics)
}

/// Sorts an error of a collaborator, given whether it holds the
/// compiler's own diagnostics error.
pub fn classify_as<E>(error: E, diagnostics: bool) -> (failure: CompileFailure<E>)
    ensures
        failure == if diagnostics {
            CompileFailure::Diagnostics
        } else {
            CompileFailure::Other(error)
        },
{
    if diagnostics {
        CompileFailure::Diagnostics
    } else {
        CompileFailure::Other(error)
    }
}

/// Whether the failure is one that the compiler has shown to the user
/// itself, so that it is not shown again.
pub fn suppress_error<E>(failure: &CompileFailure<E>) -> (suppressed: bool)
    ensures
        suppressed == is_suppressed(*failure),
{
    match failure {
        CompileFailure::Diagnostics => true,
        CompileFailure::Other(_) => false,
    }
}

/// The line that announces a unit.
pub fn compiling(unit: &CompilationUnit) -> (status: Status)
    ensures
        status@ == compiling_status(unit@),
{
    Status { verb: String::from_str("Compiling"), message: unit.name.clone() }
}

/// Adds to the reports what is shown of a failure: the error, unless it
/// is suppressed.
fn show_failure<E>(reports: &mut Vec<Report<E>>, failure: CompileFailure<E>)
    ensures
        reports_view(final(reports)@) == reports_view(old(reports)@) + failure_reports(failure),
{
    match failure {
        CompileFailure::Diagnostics => {
            assert(reports_view(reports@) + failure_reports(failure) =~= reports_view(reports@));
        },
        CompileFailure::Other(error) => {
            let ghost before = reports_view(reports@);
            reports.push(Report::Error(error));
            assert(reports_view(reports@) =~= before + failure_reports(failure));
        },
    }
}

/// Takes one unit a step further.
///
/// A unit is announced, then its database is built, then it is compiled.
/// Where the database cannot be built or the compiler fails, the build
/// ends with an error that names the package of the unit; the failure
/// itself is shown first, once, unless it is suppressed.
pub fn compile_unit<E>(unit: &CompilationUnit, phase: UnitPhase, event: UnitEvent<E>) -> (step:
    UnitStep<E>)
    ensures
        step@ == unit_step(unit@, phase, event),
{
    let mut reports: Vec<Report<E>> = Vec::new();
    let next = match (phase, event) {
        (UnitPhase::Pending, UnitEvent::Start) => {
            reports.push(Report::Status(compiling(unit)));
            UnitNext::Await(UnitPhase::Database)
        },
        (UnitPhase::Database, UnitEvent::DatabaseBuilt) => UnitNext::Await(UnitPhase::Compiler),
        (UnitPhase::Database, UnitEvent::DatabaseFailed(failure)) => {
            show_failure(&mut reports, failure);
            UnitNext::Failed(BuildError::Compilation { package: unit.package.clone() })
        },
        (UnitPhase::Compiler, UnitEvent::Compiled) => UnitNext::Succeeded,
        (UnitPhase::Compiler, UnitEvent::CompileFailed(failure)) => {
            show_failure(&mut reports, failure);
            UnitNext::Failed(BuildError::Compilation { package: unit.package.clone() })
        },
        _ => UnitNext::Failed(BuildError::OutOfTurn),
    };
    let step = UnitStep { reports, next };
    assert(step@.reports =~= unit_step(unit@, phase, event).reports);
    step
}

/// Where a build stands: what the driver has to do next and report back.
#[derive(Debug, PartialEq, Eq)]
pub enum BuildState<E> {
    /// Nothing has happened yet.
    Start,
    /// The workspace is being resolved.
    Resolving,
    /// The compilation units are being planned.
    Planning,
    /// The unit at `index` is at work; those before it are compiled, those
    /// after it have not been touched.
    Compiling { units: Vec<CompilationUnit>, index: usize, phase: UnitPhase },
    /// Every unit is compiled; the elapsed time is being read.
    Reporting,
    /// The build succeeded.
    Done,
    /// The build failed.
    Failed(BuildError<E>),
}

/// The mathematical value of a [`BuildState`].
pub ghost enum StateView<E> {
    Start,
    Resolving,
    Planning,
    Compiling { units: Seq<UnitView>, index: nat, phase: UnitPhase },
    Reporting,
    Done,
    Failed(BuildErrorView<E>),
}

impl<E> View for BuildState<E> {
    type V = StateView<E>;

    open spec fn view(&self) -> StateView<E> {
        match self {
            BuildState::Start => StateView::Start,
            BuildState::Resolving => StateView::Resolving,
            BuildState::Planning => StateView::Planning,
            BuildState::Compiling { units, index, phase } => StateView::Compiling {
                units: units_view(units@),
                index: *index as nat,
                phase: *phase,
            },
            BuildState::Reporting => StateView::Reporting,
            BuildState::Done => StateView::Done,
            BuildState::Failed(error) => StateView::Failed(error@),
        }
    }
}

/// What the driver reports back.
#[derive(Debug, PartialEq, Eq)]
pub enum Event<E> {
    /// The build is to begin.
    Begin,
    Resolved,
    ResolveFailed(E),
    /// The plan: the units in the order in which they are to be compiled.
    Planned(Vec<CompilationUnit>),
    PlanFailed(E),
    /// What happened to the unit at work.
    Unit(UnitEvent<E>),
    /// The time since the start of the process, in milliseconds.
    Elapsed(u64),
}

/// The mathematical value of an [`Event`].
pub ghost enum EventView<E> {
    Begin,
    Resolved,
    ResolveFailed(E),
    Planned(Seq<UnitView>),
    PlanFailed(E),
    Unit(UnitEvent<E>),
    Elapsed(u64),
}

impl<E> View for Event<E> {
    type V = EventView<E>;

    open spec fn view(&self) -> EventView<E> {
        match self {
            Event::Begin => EventView::Begin,
            Event::Resolved => EventView::Resolved,
            Event::ResolveFailed(error) => EventView::ResolveFailed(*error),
            Event::Planned(units) => EventView::Planned(units_view(units@)),
            Event::PlanFailed(error) => EventView::PlanFailed(*error),
            Event::Unit(event) => EventView::Unit(*event),
            Event::Elapsed(millis) => EventView::Elapsed(*millis),
        }
    }
}

/// The words in which a span of so many milliseconds is told to a person.
pub uninterp spec fn human_duration(millis: u64) -> Seq<char>;

/// `indicatif::HumanDuration` renders a duration through its `Display`.
/// The text depends on the duration alone; nothing else is claimed of it.
#[verifier::external_body]
fn render_duration(millis: u64) -> (text: String)
    ensures
        text@ == human_duration(millis),
{
    format!("{}", HumanDuration(Duration::from_millis(millis)))
}

/// The line that closes a build, given the elapsed time as it reads.
pub open spec fn finished_status(elapsed: Seq<char>) -> StatusView {
    StatusView { verb: "Finished"@, message: "release target(s) in "@ + elapsed }
}

/// The state and the reports on turning to the unit at `index`: the unit
/// takes its first step, so that it is announced and its database is due;
/// past the last unit the elapsed time is due.
pub open spec fn enter<E>(units: Seq<UnitView>, index: nat) -> (StateView<E>, Seq<ReportView<E>>) {
    if index < units.len() {
        (
            StateView::Compiling { units, index, phase: UnitPhase::Database },
            unit_step::<E>(units[index as int], UnitPhase::Pending, UnitEvent::Start).reports,
        )
    } else {
        (StateView::Reporting, Seq::empty())
    }
}

/// The state and the reports after the unit at `index` has taken a step.
pub open spec fn settle<E>(units: Seq<UnitView>, index: nat, step: UnitStepView<E>) -> (
    StateView<E>,
    Seq<ReportView<E>>,
) {
    match step.next {
        UnitNextView::Await(phase) => (StateView::Compiling { units, index, phase }, step.reports),
        UnitNextView::Succeeded => (
            enter::<E>(units, index + 1).0,
            step.reports + enter::<E>(units, index + 1).1,
        ),
        UnitNextView::Failed(error) => (StateView::Failed(error), step.reports),
    }
}

/// The step of the build: the next state and the reports to show, in
/// order.
pub open spec fn build_step<E>(state: StateView<E>, event: EventView<E>) -> (
    StateView<E>,
    Seq<ReportView<E>>,
) {
    match (state, event) {
        (StateView::Start, EventView::Begin) => (StateView::Resolving, Seq::empty()),
        (StateView::Resolving, EventView::Resolved) => (StateView::Planning, Seq::empty()),
        (StateView::Resolving, EventView::ResolveFailed(error)) => (
            StateView::Failed(BuildErrorView::Resolution(error)),
            Seq::empty(),
        ),
        (StateView::Planning, EventView::Planned(units)) => enter(units, 0),
        (StateView::Planning, EventView::PlanFailed(error)) => (
            StateView::Failed(BuildErrorView::Planning(error)),
            Seq::empty(),
        ),
        (StateView::Compiling { units, index, phase }, EventView::Unit(event)) => if index
            < units.len() {
            settle(units, index, unit_step(units[index as int], phase, event))
        } else {
            (StateView::Failed(BuildErrorView::OutOfTurn), Seq::empty())
        },
        (StateView::Reporting, EventView::Elapsed(millis)) => (
            StateView::Done,
            seq![ReportView::Status(finished_status(human_duration(millis)))],
        ),
        (StateView::Done, _) => (StateView::Done, Seq::empty()),
        (StateView::Failed(error), _) => (StateView::Failed(error), Seq::empty()),
        _ => (StateView::Failed(BuildErrorView::OutOfTurn), Seq::empty()),
    }
}

/// The line that closes a build, given the elapsed time as it reads.
pub fn finished(elapsed: &str) -> (status: Status)
    ensures
        status@ == finished_status(elapsed@),
{
    Status {
        verb: String::from_str("Finished"),
        message: String::from_str("release target(s) in ").concat(elapsed),
    }
}

/// Turns to the unit at `index`.
fn enter_unit<E>(units: Vec<CompilationUnit>, index: usize) -> (next: (
    BuildState<E>,
    Vec<Report<E>>,
))
    ensures
        (next.0@, reports_view(next.1@)) == enter::<E>(units_view(units@), index as nat),
{
    if index < units.len() {
        let step = compile_unit(&units[index], UnitPhase::Pending, UnitEvent::Start);
        (BuildState::Compiling { units, index, phase: UnitPhase::Database }, step.reports)
    } else {
        (BuildState::Reporting, Vec::new())
    }
}

/// Takes the build a step further.
///
/// The workspace is resolved, then the units are planned, then each unit
/// is compiled in the order of the plan, then the elapsed time is read and
/// the build is closed with one line. The error of the resolver or of the
/// planner ends the build as it came. Once a unit has failed no other unit
/// is started, and a build that has ended stays as it is and shows nothing
/// more.
pub fn compile<E>(state: BuildState<E>, event: Event<E>) -> (next: (BuildState<E>, Vec<Report<E>>))
    ensures
        (next.0@, reports_view(next.1@)) == build_step(state@, event@),
{
    let mut reports: Vec<Report<E>> = Vec::new();
    match (state, event) {
        (BuildState::Start, Event::Begin) => (BuildState::Resolving, reports),
        (BuildState::Resolving, Event::Resolved) => (BuildState::Planning, reports),
        (BuildState::Resolving, Event::ResolveFailed(error)) => (
            BuildState::Failed(BuildError::Resolution(error)),
            reports,
        ),
        (BuildState::Planning, Event::Planned(units)) => enter_unit(units, 0),
        (BuildState::Planning, Event::PlanFailed(error)) => (
            BuildState::Failed(BuildError::Planning(error)),
            reports,
        ),
        (BuildState::Compiling { units, index, phase }, Event::Unit(event)) => {
            if index < units.len() {
                let step = compile_unit(&units[index], phase, event);
                match step.next {
                    UnitNext::Await(phase) => (
                        BuildState::Compiling { units, index, phase },
                        step.reports,
                    ),
                    UnitNext::Succeeded => {
                        let (state, mut announced) = enter_unit(units, index + 1);
                        let mut reports = step.reports;
                        reports.append(&mut announced);
                        (state, reports)
                    },
                    UnitNext::Failed(error) => (BuildState::Failed(error), step.reports),
                }
            } else {
                (BuildState::Failed(BuildError::OutOfTurn), reports)
            }
        },
        (BuildState::Reporting, Event::Elapsed(millis)) => {
            let elapsed = render_duration(millis);
            reports.push(Report::Status(finished(elapsed.as_str())));
            (BuildState::Done, reports)
        },
        (BuildState::Done, _) => (BuildState::Done, reports),
        (BuildState::Failed(error), _) => (BuildState::Failed(error), reports),
        _ => (BuildState::Failed(BuildError::OutOfTurn), reports),
    }
}

/// Where a run ends and what it shows: the machine takes the events one
/// after another, and the reports of the steps follow each other.
pub open spec fn run<E>(state: StateView<E>, events: Seq<EventView<E>>) -> (
    StateView<E>,
    Seq<ReportView<E>>,
)
    decreases events.len(),
{
    if events.len() == 0 {
        (state, Seq::empty())
    } else {
        let first = build_step(state, events[0]);
        let rest = run(first.0, events.drop_first());
        (rest.0, first.1 + rest.1)
    }
}

/// The announcements of the first `count` units, in the order of the plan.
pub open spec fn announcements<E>(units: Seq<UnitView>, count: nat) -> Seq<ReportView<E>> {
    Seq::new(count, |index: int| ReportView::Status(compiling_status(units[index])))
}

/// What a driver reports up to the plan.
pub open spec fn planned<E>(units: Seq<UnitView>) -> Seq<EventView<E>> {
    seq![EventView::Begin, EventView::Resolved, EventView::Planned(units)]
}

/// What a driver reports of `count` units that compile: of each, that its
/// database was built and that it was compiled.
pub open spec fn compiled<E>(count: nat) -> Seq<EventView<E>> {
    Seq::new(
        2 * count,
        |index: int|
            if index % 2 == 0 {
                EventView::Unit(UnitEvent::DatabaseBuilt)
            } else {
                EventView::Unit(UnitEvent::Compiled)
            },
    )
}

/// The state in which the unit at `index` waits for its database, or, past
/// the last unit, the build waits for the elapsed time.
pub open spec fn waiting<E>(units: Seq<UnitView>, index: nat) -> StateView<E> {
    enter::<E>(units, index).0
}

/// A run in two parts ends where the second part ends, and shows the
/// reports of both.
pub proof fn lemma_run_in_parts<E>(
    state: StateView<E>,
    first: Seq<EventView<E>>,
    second: Seq<EventView<E>>,
)
    ensures
        run(state, first + second) == (
            run(run(state, first).0, second).0,
            run(state, first).1 + run(run(state, first).0, second).1,
        ),
    decreases first.len(),
{
    if first.len() > 0 {
        assert((first + second).drop_first() =~= first.drop_first() + second);
        lemma_run_in_parts(build_step(state, first[0]).0, first.drop_first(), second);
    }
}

/// A run of one event is one step.
pub proof fn lemma_run_of_one<E>(state: StateView<E>, event: EventView<E>)
    ensures
        run(state, seq![event]) == build_step(state, event),
{
    let next = build_step(state, event).0;
    assert(run(next, seq![event].drop_first()) == (next, Seq::<ReportView<E>>::empty()));
}

/// A run of two events is two steps, the reports of the first before
/// those of the second.
pub proof fn lemma_run_of_two<E>(state: StateView<E>, first: EventView<E>, second: EventView<E>)
    ensures
        run(state, seq![first, second]) == (
            build_step(build_step(state, first).0, second).0,
            build_step(state, first).1 + build_step(build_step(state, first).0, second).1,
        ),
{
    assert(seq![first, second] =~= seq![first] + seq![second]);
    lemma_run_in_parts(state, seq![first], seq![second]);
    lemma_run_of_one(state, first);
    lemma_run_of_one(build_step(state, first).0, second);
}

/// A build that has ended stays as it is and shows nothing more, whatever
/// is reported to it.
pub proof fn lemma_ended_build_is_final<E>(state: StateView<E>, events: Seq<EventView<E>>)
    requires
        state is Done || state is Failed,
    ensures
        run(state, events) == (state, Seq::<ReportView<E>>::empty()),
    decreases events.len(),
{
    if events.len() > 0 {
        lemma_ended_build_is_final(state, events.drop_first());
    }
}

/// Units are compiled in the order of the plan: after the plan and `count`
/// units that compiled, the next unit of the plan is at work, and exactly
/// the units up to it have been announced, in order. After the last unit
/// the build waits for the elapsed time.
pub proof fn lemma_units_in_order<E>(units: Seq<UnitView>, count: nat)
    requires
        count <= units.len(),
    ensures
        run(StateView::<E>::Start, planned(units) + compiled(count)) == (
            waiting::<E>(units, count),
            announcements::<E>(
                units,
                if count < units.len() {
                    count + 1
                } else {
                    count
                },
            ),
        ),
    decreases count,
{
    let start = StateView::<E>::Start;
    if count == 0 {
        let begin = planned::<E>(units);
        assert(begin =~= seq![EventView::Begin, EventView::Resolved] + seq![
            EventView::Planned(units),
        ]);
        lemma_run_in_parts(
            start,
            seq![EventView::Begin, EventView::Resolved],
            seq![EventView::Planned(units)],
        );
        lemma_run_of_two(start, EventView::Begin, EventView::Resolved);
        lemma_run_of_one(StateView::<E>::Planning, EventView::Planned(units));
    } else {
        let before = (count - 1) as nat;
        lemma_units_in_order::<E>(units, before);
        let unit: Seq<EventView<E>> = seq![
            EventView::Unit(UnitEvent::DatabaseBuilt),
            EventView::Unit(UnitEvent::Compiled),
        ];
        assert(planned::<E>(units) + compiled::<E>(count) =~= (planned::<E>(units) + compiled::<E>(
            before,
        )) + unit);
        lemma_run_in_parts(start, planned::<E>(units) + compiled::<E>(before), unit);
        lemma_run_of_two(
            waiting::<E>(units, before),
            EventView::Unit(UnitEvent::DatabaseBuilt),
            EventView::Unit(UnitEvent::Compiled),
        );
    }
}

/// A build in which every unit compiles announces every unit, in the order
/// of the plan, closes with one line, and succeeds.
pub proof fn lemma_build_succeeds<E>(units: Seq<UnitView>, millis: u64)
    ensures
        run(
            StateView::<E>::Start,
            planned(units) + compiled(units.len()) + seq![EventView::Elapsed(millis)],
        ) == (
            StateView::<E>::Done,
            announcements::<E>(units, units.len()).push(
                ReportView::Status(finished_status(human_duration(millis))),
            ),
        ),
{
    let close: Seq<EventView<E>> = seq![EventView::Elapsed(millis)];
    lemma_units_in_order::<E>(units, units.len());
    lemma_run_in_parts(StateView::<E>::Start, planned(units) + compiled(units.len()), close);
    lemma_run_of_one(StateView::<E>::Reporting, EventView::Elapsed(millis));
}

/// A build stops at the first unit that fails. Where the units before the
/// unit at `index` compile and that unit fails, exactly the units up to it
/// have been announced, in order; the failure is shown once unless it is
/// suppressed, and then not at all; the build has failed with an error
/// that names the package of that unit; and whatever is reported after
/// that, no other unit is announced and nothing more is shown.
pub proof fn lemma_build_stops_at_failure<E>(
    units: Seq<UnitView>,
    index: nat,
    failure: CompileFailure<E>,
    later: Seq<EventView<E>>,
)
    requires
        index < units.len(),
    ensures
        run(
            StateView::<E>::Start,
            planned(units) + compiled(index) + seq![
                EventView::Unit(UnitEvent::DatabaseBuilt),
                EventView::Unit(UnitEvent::CompileFailed(failure)),
            ] + later,
        ) == (
            StateView::<E>::Failed(
                BuildErrorView::Compilation { package: units[index as int].package },
            ),
            announcements::<E>(units, index + 1) + failure_reports(failure),
        ),
{
    let start = StateView::<E>::Start;
    let unit: Seq<EventView<E>> = seq![
        EventView::Unit(UnitEvent::DatabaseBuilt),
        EventView::Unit(UnitEvent::CompileFailed(failure)),
    ];
    let before = planned::<E>(units) + compiled::<E>(index);
    lemma_units_in_order::<E>(units, index);
    lemma_run_in_parts(start, before, unit);
    lemma_run_in_parts(start, before + unit, later);
    lemma_run_of_two(
        waiting::<E>(units, index),
        EventView::Unit(UnitEvent::DatabaseBuilt),
        EventView::Unit(UnitEvent::CompileFailed(failure)),
    );
    lemma_ended_build_is_final(
        StateView::<E>::Failed(
            BuildErrorView::Compilation { package: units[index as int].package },
        ),
        later,
    );
}

/// The events of a build in which everything went well, and whatever was
/// reported after its end.
pub open spec fn successful<E>(units: Seq<UnitView>, millis: u64, later: Seq<EventView<E>>) -> Seq<
    EventView<E>,
> {
    planned(units) + compiled(units.len()) + seq![EventView::Elapsed(millis)] + later
}

/// The events up to the point where every unit is compiled.
pub open spec fn all_compiled<E>(units: Seq<UnitView>) -> Seq<EventView<E>> {
    planned(units) + compiled(units.len())
}

/// Whether a state that has not failed is where the events seen so far
/// lead on the one course that a build can take.
pub open spec fn on_course<E>(seen: Seq<EventView<E>>, state: StateView<E>) -> bool {
    match state {
        StateView::Start => seen == Seq::<EventView<E>>::empty(),
        StateView::Resolving => seen == seq![EventView::<E>::Begin],
        StateView::Planning => seen == seq![EventView::<E>::Begin, EventView::<E>::Resolved],
        StateView::Compiling { units, index, phase } => index < units.len() && match phase {
            UnitPhase::Pending => false,
            UnitPhase::Database => seen == planned::<E>(units) + compiled::<E>(index),
            UnitPhase::Compiler => seen == (planned::<E>(units) + compiled::<E>(index)).push(
                EventView::Unit(UnitEvent::DatabaseBuilt),
            ),
        },
        StateView::Reporting => exists|units: Seq<UnitView>| seen == #[trigger] all_compiled::<E>(
            units,
        ),
        StateView::Done => exists|units: Seq<UnitView>, millis: u64, later: Seq<EventView<E>>|
            seen == #[trigger] successful(units, millis, later),
        StateView::Failed(_) => true,
    }
}

/// A step keeps the build on its course.
proof fn lemma_step_stays_on_course<E>(
    seen: Seq<EventView<E>>,
    state: StateView<E>,
    event: EventView<E>,
)
    requires
        on_course(seen, state),
    ensures
        on_course(seen.push(event), build_step(state, event).0),
{
    let now = seen.push(event);
    match (state, event) {
        (StateView::Resolving, EventView::Resolved) => {
            assert(now =~= seq![EventView::<E>::Begin, EventView::<E>::Resolved]);
        },
        (StateView::Planning, EventView::Planned(units)) => {
            assert(now =~= planned::<E>(units) + compiled::<E>(0));
            assert(now == all_compiled::<E>(units) || 0 < units.len());
        },
        (StateView::Compiling { units, index, phase }, EventView::Unit(unit_event)) => {
            match (phase, unit_event) {
                (UnitPhase::Compiler, UnitEvent::Compiled) => {
                    let after = (index + 1) as nat;
                    assert(now =~= planned::<E>(units) + compiled::<E>(after));
                    assert(now == all_compiled::<E>(units) || after < units.len());
                },
                _ => {},
            }
        },
        (StateView::Reporting, EventView::Elapsed(millis)) => {
            let units = choose|units: Seq<UnitView>| seen == #[trigger] all_compiled::<E>(units);
            assert(now =~= successful(units, millis, Seq::<EventView<E>>::empty()));
        },
        (StateView::Done, _) => {
            let (units, millis, later) = choose|
                units: Seq<UnitView>,
                millis: u64,
                later: Seq<EventView<E>>,
            | seen == #[trigger] successful(units, millis, later);
            assert(now =~= successful(units, millis, later.push(event)));
        },
        _ => {},
    }
}

/// A run keeps the build on its course.
proof fn lemma_run_stays_on_course<E>(
    seen: Seq<EventView<E>>,
    state: StateView<E>,
    events: Seq<EventView<E>>,
)
    requires
        on_course(seen, state),
    ensures
        on_course(seen + events, run(state, events).0),
    decreases events.len(),
{
    if events.len() > 0 {
        lemma_step_stays_on_course(seen, state, events[0]);
        lemma_run_stays_on_course(
            seen.push(events[0]),
            build_step(state, events[0]).0,
            events.drop_first(),
        );
        assert(seen.push(events[0]) + events.drop_first() =~= seen + events);
    }
}

/// A build succeeds only on one course: the workspace was resolved, the
/// units were planned, the database of every unit was built and the unit
/// compiled, one unit after another in the order of the plan and none
/// left out, and then the elapsed time was read.
pub proof fn lemma_success_takes_every_unit<E>(events: Seq<EventView<E>>)
    requires
        run(StateView::<E>::Start, events).0 is Done,
    ensures
        exists|units: Seq<UnitView>, millis: u64, later: Seq<EventView<E>>|
            events == #[trigger] successful(units, millis, later),
{
    lemma_run_stays_on_course(Seq::<EventView<E>>::empty(), StateView::<E>::Start, events);
}

/// What a build that succeeded has shown: the announcement of every unit,
/// in the order of the plan, and the closing line; nothing else.
pub proof fn lemma_success_shows_every_unit<E>(
    units: Seq<UnitView>,
    millis: u64,
    later: Seq<EventView<E>>,
)
    ensures
        run(StateView::<E>::Start, successful(units, millis, later)) == (
            StateView::<E>::Done,
            announcements::<E>(units, units.len()).push(
                ReportView::Status(finished_status(human_duration(millis))),
            ),
        ),
{
    let course = planned::<E>(units) + compiled::<E>(units.len()) + seq![
        EventView::<E>::Elapsed(millis),
    ];
    lemma_build_succeeds::<E>(units, millis);
    lemma_run_in_parts(StateView::<E>::Start, course, later);
    lemma_ended_build_is_final(StateView::<E>::Done, later);
}

/// The resolver's error ends the build as it came: nothing is planned,
/// nothing is announced, nothing is shown.
pub proof fn lemma_resolution_error_passes<E>(error: E, later: Seq<EventView<E>>)
    ensures
        run(
            StateView::<E>::Start,
            seq![EventView::Begin, EventView::ResolveFailed(error)] + later,
        ) == (
            StateView::<E>::Failed(BuildErrorView::Resolution(error)),
            Seq::<ReportView<E>>::empty(),
        ),
{
    let start = StateView::<E>::Start;
    lemma_run_in_parts(start, seq![EventView::Begin, EventView::ResolveFailed(error)], later);
    lemma_run_of_two(start, EventView::Begin, EventView::ResolveFailed(error));
    lemma_ended_build_is_final(
        StateView::<E>::Failed(BuildErrorView::Resolution(error)),
        later,
    );
}

/// The planner's error ends the build as it came: no unit is announced
/// and nothing is shown.
pub proof fn lemma_planning_error_passes<E>(error: E, later: Seq<EventView<E>>)
    ensures
        run(
            StateView::<E>::Start,
            seq![EventView::Begin, EventView::Resolved] + seq![EventView::PlanFailed(error)]
                + later,
        ) == (
            StateView::<E>::Failed(BuildErrorView::Planning(error)),
            Seq::<ReportView<E>>::empty(),
        ),
{
    let start = StateView::<E>::Start;
    let resolved = seq![EventView::Begin, EventView::Resolved];
    let refused = seq![EventView::PlanFailed(error)];
    lemma_run_in_parts(start, resolved + refused, later);
    lemma_run_in_parts(start, resolved, refused);
    lemma_run_of_two(start, EventView::Begin, EventView::Resolved);
    lemma_run_of_one(StateView::<E>::Planning, EventView::PlanFailed(error));
    lemma_ended_build_is_final(StateView::<E>::Failed(BuildErrorView::Planning(error)), later);
}

/// A unit whose database cannot be built ends the build as a unit that
/// does not compile: the unit has been announced, the failure is shown
/// once unless it is suppressed, the compiler is not asked, the error
/// names the package of the unit, and no other unit is started.
pub proof fn lemma_build_stops_at_database_failure<E>(
    units: Seq<UnitView>,
    index: nat,
    failure: CompileFailure<E>,
    later: Seq<EventView<E>>,
)
    requires
        index < units.len(),
    ensures
        run(
            StateView::<E>::Start,
            planned(units) + compiled(index) + seq![
                EventView::Unit(UnitEvent::DatabaseFailed(failure)),
            ] + later,
        ) == (
            StateView::<E>::Failed(
                BuildErrorView::Compilation { package: units[index as int].package },
            ),
            announcements::<E>(units, index + 1) + failure_reports(failure),
        ),
{
    let start = StateView::<E>::Start;
    let before = planned::<E>(units) + compiled::<E>(index);
    let refused = seq![EventView::Unit(UnitEvent::DatabaseFailed(failure))];
    lemma_units_in_order::<E>(units, index);
    lemma_run_in_parts(start, before, refused);
    lemma_run_in_parts(start, before + refused, later);
    lemma_run_of_one(
        waiting::<E>(units, index),
        EventView::Unit(UnitEvent::DatabaseFailed(failure)),
    );
    lemma_ended_build_is_final(
        StateView::<E>::Failed(
            BuildErrorView::Compilation { package: units[index as int].package },
        ),
        later,
    );
}

} // verus!
