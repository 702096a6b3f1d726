use cairo_lang_compiler::diagnostics::DiagnosticsError;
use canonical_build::compile::{
    classify, classify_as, compile, compile_unit, compiling, finished, suppress_error, BuildError,
    BuildState, CompilationUnit, CompileFailure, Event, Report, Status, UnitEvent, UnitNext,
    UnitPhase,
};

type Failure = CompileFailure<String>;

/// What the collaborators of a build will answer.
struct Script {
    resolve: Result<(), String>,
    plan: Result<Vec<CompilationUnit>, String>,
    database: Vec<Result<(), Failure>>,
    compiler: Vec<Result<(), Failure>>,
    elapsed: u64,
}

/// What a build did and showed.
struct Record {
    work: Vec<String>,
    reports: Vec<Report<String>>,
    outcome: Result<(), BuildError<String>>,
}

fn unit(name: &str, package: &str) -> CompilationUnit {
    CompilationUnit {
        name: name.to_owned(),
        package: package.to_owned(),
    }
}

fn abc() -> Vec<CompilationUnit> {
    vec![unit("A", "a_pkg"), unit("B", "b_pkg"), unit("C", "c_pkg")]
}

fn status(verb: &str, message: &str) -> Report<String> {
    Report::Status(Status {
        verb: verb.to_owned(),
        message: message.to_owned(),
    })
}

fn all_compile(units: Vec<CompilationUnit>) -> Script {
    let count = units.len();
    Script {
        resolve: Ok(()),
        plan: Ok(units),
        database: (0..count).map(|_| Ok(())).collect(),
        compiler: (0..count).map(|_| Ok(())).collect(),
        elapsed: 2_000,
    }
}

fn drive(mut script: Script) -> Record {
    let mut work = Vec::new();
    let mut shown = Vec::new();
    let mut state: BuildState<String> = BuildState::Start;
    let mut event: Event<String> = Event::Begin;
    loop {
        let (next, mut reports) = compile(state, event);
        shown.append(&mut reports);
        event = match &next {
            BuildState::Start => panic!("a build does not go back to its start"),
            BuildState::Resolving => {
                work.push("resolve".to_owned());
                match script.resolve.clone() {
                    Ok(()) => Event::Resolved,
                    Err(error) => Event::ResolveFailed(error),
                }
            }
            BuildState::Planning => {
                work.push("plan".to_owned());
                match script.plan.clone() {
                    Ok(units) => Event::Planned(units),
                    Err(error) => Event::PlanFailed(error),
                }
            }
            BuildState::Compiling {
                units,
                index,
                phase,
            } => match phase {
                UnitPhase::Pending => panic!("a unit at work has been announced"),
                UnitPhase::Database => {
                    work.push(format!("database {}", units[*index].name));
                    match std::mem::replace(&mut script.database[*index], Ok(())) {
                        Ok(()) => Event::Unit(UnitEvent::DatabaseBuilt),
                        Err(failure) => Event::Unit(UnitEvent::DatabaseFailed(failure)),
                    }
                }
                UnitPhase::Compiler => {
                    work.push(format!("compile {}", units[*index].name));
                    match std::mem::replace(&mut script.compiler[*index], Ok(())) {
                        Ok(()) => Event::Unit(UnitEvent::Compiled),
                        Err(failure) => Event::Unit(UnitEvent::CompileFailed(failure)),
                    }
                }
            },
            BuildState::Reporting => {
                work.push("elapsed".to_owned());
                Event::Elapsed(script.elapsed)
            }
            BuildState::Done => {
                return Record {
                    work,
                    reports: shown,
                    outcome: Ok(()),
                }
            }
            BuildState::Failed(_) => {
                let BuildState::Failed(error) = next else {
                    unreachable!()
                };
                return Record {
                    work,
                    reports: shown,
                    outcome: Err(error),
                };
            }
        };
        state = next;
    }
}

#[test]
fn units_compile_in_the_order_of_the_plan() {
    let record = drive(all_compile(abc()));
    assert_eq!(
        record.work,
        vec![
            "resolve",
            "plan",
            "database A",
            "compile A",
            "database B",
            "compile B",
            "database C",
            "compile C",
            "elapsed"
        ]
    );
    assert_eq!(
        record.reports,
        vec![
            status("Compiling", "A"),
            status("Compiling", "B"),
            status("Compiling", "C"),
            status("Finished", "release target(s) in 2 seconds"),
        ]
    );
    assert_eq!(record.outcome, Ok(()));
}

#[test]
fn build_stops_at_the_unit_that_fails() {
    let mut script = all_compile(abc());
    script.compiler[1] = Err(CompileFailure::Other("type mismatch".to_owned()));
    let record = drive(script);
    assert_eq!(
        record.work,
        vec!["resolve", "plan", "database A", "compile A", "database B", "compile B"]
    );
    assert_eq!(
        record.reports,
        vec![
            status("Compiling", "A"),
            status("Compiling", "B"),
            Report::Error("type mismatch".to_owned()),
        ]
    );
    assert!(!record.reports.contains(&status("Compiling", "C")));
    let error = record.outcome.unwrap_err();
    assert_eq!(
        error,
        BuildError::Compilation {
            package: "b_pkg".to_owned()
        }
    );
    assert_eq!(
        error.message().unwrap(),
        "could not compile `b_pkg` due to previous error"
    );
}

#[test]
fn diagnostics_failure_is_not_shown_again() {
    let mut script = all_compile(abc());
    script.compiler[1] = Err(CompileFailure::Diagnostics);
    let record = drive(script);
    assert_eq!(
        record.reports,
        vec![status("Compiling", "A"), status("Compiling", "B")]
    );
    assert_eq!(
        record.outcome,
        Err(BuildError::Compilation {
            package: "b_pkg".to_owned()
        })
    );
    assert_eq!(
        record.work,
        vec!["resolve", "plan", "database A", "compile A", "database B", "compile B"]
    );
}

#[test]
fn other_failure_is_shown_exactly_once() {
    let mut script = all_compile(abc());
    script.compiler[1] = Err(CompileFailure::Other("boom".to_owned()));
    let record = drive(script);
    let shown = record
        .reports
        .iter()
        .filter(|report| matches!(report, Report::Error(_)))
        .count();
    assert_eq!(shown, 1);
    assert_eq!(record.reports.last(), Some(&Report::Error("boom".to_owned())));
}

#[test]
fn first_unit_failing_starts_no_other() {
    let mut script = all_compile(abc());
    script.compiler[0] = Err(CompileFailure::Diagnostics);
    let record = drive(script);
    assert_eq!(record.work, vec!["resolve", "plan", "database A", "compile A"]);
    assert_eq!(record.reports, vec![status("Compiling", "A")]);
    assert_eq!(
        record.outcome,
        Err(BuildError::Compilation {
            package: "a_pkg".to_owned()
        })
    );
}

#[test]
fn resolution_error_passes_unchanged() {
    let mut script = all_compile(abc());
    script.resolve = Err("registry unreachable".to_owned());
    let record = drive(script);
    assert_eq!(record.work, vec!["resolve"]);
    assert!(record.reports.is_empty());
    let error = record.outcome.unwrap_err();
    assert_eq!(error, BuildError::Resolution("registry unreachable".to_owned()));
    assert_eq!(error.message(), None);
}

#[test]
fn planning_error_passes_unchanged() {
    let mut script = all_compile(abc());
    script.plan = Err("cyclic".to_owned());
    let record = drive(script);
    assert_eq!(record.work, vec!["resolve", "plan"]);
    assert!(record.reports.is_empty());
    let error = record.outcome.unwrap_err();
    assert_eq!(error, BuildError::Planning("cyclic".to_owned()));
    assert_eq!(error.message(), None);
}

#[test]
fn database_failure_names_the_package() {
    let mut script = all_compile(abc());
    script.database[1] = Err(CompileFailure::Other("no corelib".to_owned()));
    let record = drive(script);
    assert_eq!(
        record.work,
        vec!["resolve", "plan", "database A", "compile A", "database B"]
    );
    assert_eq!(
        record.reports,
        vec![
            status("Compiling", "A"),
            status("Compiling", "B"),
            Report::Error("no corelib".to_owned()),
        ]
    );
    let error = record.outcome.unwrap_err();
    assert_eq!(
        error,
        BuildError::Compilation {
            package: "b_pkg".to_owned()
        }
    );
    assert_eq!(
        error.message().unwrap(),
        "could not compile `b_pkg` due to previous error"
    );
}

#[test]
fn database_failure_with_diagnostics_is_not_shown_again() {
    let mut script = all_compile(abc());
    script.database[0] = Err(CompileFailure::Diagnostics);
    let record = drive(script);
    assert_eq!(record.work, vec!["resolve", "plan", "database A"]);
    assert_eq!(record.reports, vec![status("Compiling", "A")]);
    assert_eq!(
        record.outcome,
        Err(BuildError::Compilation {
            package: "a_pkg".to_owned()
        })
    );
}

#[test]
fn empty_plan_finishes_at_once() {
    let record = drive(all_compile(Vec::new()));
    assert_eq!(record.work, vec!["resolve", "plan", "elapsed"]);
    assert_eq!(
        record.reports,
        vec![status("Finished", "release target(s) in 2 seconds")]
    );
    assert_eq!(record.outcome, Ok(()));
}

#[test]
fn elapsed_time_reads_as_a_person_would_say_it() {
    for (millis, text) in [
        (0, "0 seconds"),
        (499, "0 seconds"),
        (500, "1 second"),
        (1_000, "1 second"),
        (59_000, "59 seconds"),
        (60_000, "60 seconds"),
        (120_000, "2 minutes"),
        (7_200_000, "2 hours"),
    ] {
        let (state, reports) = compile::<String>(BuildState::Reporting, Event::Elapsed(millis));
        assert_eq!(state, BuildState::Done);
        assert_eq!(
            reports,
            vec![status("Finished", &format!("release target(s) in {text}"))],
            "{millis}"
        );
    }
}

#[test]
fn ended_build_stays_as_it_is() {
    let events = || -> Vec<Event<String>> {
        vec![
            Event::Begin,
            Event::Resolved,
            Event::ResolveFailed("x".to_owned()),
            Event::Planned(abc()),
            Event::PlanFailed("x".to_owned()),
            Event::Unit(UnitEvent::Start),
            Event::Unit(UnitEvent::DatabaseBuilt),
            Event::Unit(UnitEvent::Compiled),
            Event::Unit(UnitEvent::CompileFailed(CompileFailure::Other(
                "x".to_owned(),
            ))),
            Event::Elapsed(5),
        ]
    };
    for event in events() {
        let (state, reports) = compile(BuildState::Done, event);
        assert_eq!(state, BuildState::Done);
        assert!(reports.is_empty());
    }
    for event in events() {
        let failed = BuildState::Failed(BuildError::Planning("first".to_owned()));
        let (state, reports) = compile(failed, event);
        assert_eq!(
            state,
            BuildState::Failed(BuildError::Planning("first".to_owned()))
        );
        assert!(reports.is_empty());
    }
}

#[test]
fn event_out_of_turn_fails_the_build() {
    let cases: Vec<(BuildState<String>, Event<String>)> = vec![
        (BuildState::Start, Event::Resolved),
        (BuildState::Start, Event::Elapsed(1)),
        (BuildState::Resolving, Event::Begin),
        (BuildState::Resolving, Event::Planned(abc())),
        (BuildState::Planning, Event::Resolved),
        (BuildState::Planning, Event::Unit(UnitEvent::Compiled)),
        (BuildState::Reporting, Event::Unit(UnitEvent::Compiled)),
        (BuildState::Reporting, Event::Begin),
        (
            BuildState::Compiling {
                units: abc(),
                index: 0,
                phase: UnitPhase::Database,
            },
            Event::Unit(UnitEvent::Compiled),
        ),
        (
            BuildState::Compiling {
                units: abc(),
                index: 0,
                phase: UnitPhase::Compiler,
            },
            Event::Unit(UnitEvent::DatabaseBuilt),
        ),
        (
            BuildState::Compiling {
                units: abc(),
                index: 0,
                phase: UnitPhase::Database,
            },
            Event::Elapsed(1),
        ),
        (
            BuildState::Compiling {
                units: abc(),
                index: 3,
                phase: UnitPhase::Database,
            },
            Event::Unit(UnitEvent::DatabaseBuilt),
        ),
    ];
    for (state, event) in cases {
        let (next, reports) = compile(state, event);
        assert_eq!(next, BuildState::Failed(BuildError::OutOfTurn));
        assert!(reports.is_empty());
    }
    assert_eq!(
        BuildError::<String>::OutOfTurn.message().unwrap(),
        "build driven out of turn"
    );
}

#[test]
fn steps_of_the_build_one_by_one() {
    let (state, reports) = compile::<String>(BuildState::Start, Event::Begin);
    assert_eq!(state, BuildState::Resolving);
    assert!(reports.is_empty());
    let (state, reports) = compile(state, Event::Resolved);
    assert_eq!(state, BuildState::Planning);
    assert!(reports.is_empty());
    let (state, reports) = compile(state, Event::Planned(abc()));
    assert_eq!(
        state,
        BuildState::Compiling {
            units: abc(),
            index: 0,
            phase: UnitPhase::Database
        }
    );
    assert_eq!(reports, vec![status("Compiling", "A")]);
    let (state, reports) = compile(state, Event::Unit(UnitEvent::DatabaseBuilt));
    assert_eq!(
        state,
        BuildState::Compiling {
            units: abc(),
            index: 0,
            phase: UnitPhase::Compiler
        }
    );
    assert!(reports.is_empty());
    let (state, reports) = compile(state, Event::Unit(UnitEvent::Compiled));
    assert_eq!(
        state,
        BuildState::Compiling {
            units: abc(),
            index: 1,
            phase: UnitPhase::Database
        }
    );
    assert_eq!(reports, vec![status("Compiling", "B")]);
    let last = BuildState::Compiling {
        units: abc(),
        index: 2,
        phase: UnitPhase::Compiler,
    };
    let (state, reports) = compile::<String>(last, Event::Unit(UnitEvent::Compiled));
    assert_eq!(state, BuildState::Reporting);
    assert!(reports.is_empty());
}

#[test]
fn steps_of_a_unit() {
    let b = unit("B", "b_pkg");
    let step = compile_unit::<String>(&b, UnitPhase::Pending, UnitEvent::Start);
    assert_eq!(step.reports, vec![status("Compiling", "B")]);
    assert_eq!(step.next, UnitNext::Await(UnitPhase::Database));

    let step = compile_unit::<String>(&b, UnitPhase::Database, UnitEvent::DatabaseBuilt);
    assert!(step.reports.is_empty());
    assert_eq!(step.next, UnitNext::Await(UnitPhase::Compiler));

    let step = compile_unit(
        &b,
        UnitPhase::Database,
        UnitEvent::DatabaseFailed(CompileFailure::Other("no corelib".to_owned())),
    );
    assert_eq!(step.reports, vec![Report::Error("no corelib".to_owned())]);
    assert_eq!(
        step.next,
        UnitNext::Failed(BuildError::Compilation {
            package: "b_pkg".to_owned()
        })
    );

    let step = compile_unit::<String>(
        &b,
        UnitPhase::Database,
        UnitEvent::DatabaseFailed(CompileFailure::Diagnostics),
    );
    assert!(step.reports.is_empty());
    assert_eq!(
        step.next,
        UnitNext::Failed(BuildError::Compilation {
            package: "b_pkg".to_owned()
        })
    );

    let step = compile_unit::<String>(&b, UnitPhase::Compiler, UnitEvent::Compiled);
    assert!(step.reports.is_empty());
    assert_eq!(step.next, UnitNext::Succeeded);

    let step = compile_unit::<String>(
        &b,
        UnitPhase::Compiler,
        UnitEvent::CompileFailed(CompileFailure::Diagnostics),
    );
    assert!(step.reports.is_empty());
    assert_eq!(
        step.next,
        UnitNext::Failed(BuildError::Compilation {
            package: "b_pkg".to_owned()
        })
    );

    let step = compile_unit(
        &b,
        UnitPhase::Compiler,
        UnitEvent::CompileFailed(CompileFailure::Other("boom".to_owned())),
    );
    assert_eq!(step.reports, vec![Report::Error("boom".to_owned())]);
    assert_eq!(
        step.next,
        UnitNext::Failed(BuildError::Compilation {
            package: "b_pkg".to_owned()
        })
    );
}

#[test]
fn unit_event_out_of_turn_fails_the_unit() {
    let b = unit("B", "b_pkg");
    let cases: Vec<(UnitPhase, UnitEvent<String>)> = vec![
        (UnitPhase::Pending, UnitEvent::DatabaseBuilt),
        (UnitPhase::Pending, UnitEvent::Compiled),
        (UnitPhase::Database, UnitEvent::Start),
        (UnitPhase::Database, UnitEvent::Compiled),
        (
            UnitPhase::Database,
            UnitEvent::CompileFailed(CompileFailure::Other("x".to_owned())),
        ),
        (UnitPhase::Compiler, UnitEvent::Start),
        (UnitPhase::Compiler, UnitEvent::DatabaseBuilt),
        (
            UnitPhase::Compiler,
            UnitEvent::DatabaseFailed(CompileFailure::Other("x".to_owned())),
        ),
    ];
    for (phase, event) in cases {
        let step = compile_unit(&b, phase, event);
        assert!(step.reports.is_empty());
        assert_eq!(step.next, UnitNext::Failed(BuildError::OutOfTurn));
    }
}

#[test]
fn only_diagnostics_are_suppressed() {
    assert!(suppress_error(&CompileFailure::<String>::Diagnostics));
    assert!(!suppress_error(&CompileFailure::Other("boom".to_owned())));
}

#[test]
fn errors_of_the_compiler_are_sorted() {
    let diagnostics = classify(anyhow::Error::new(DiagnosticsError));
    assert!(matches!(diagnostics, CompileFailure::Diagnostics));
    assert!(suppress_error(&diagnostics));

    let wrapped = classify(anyhow::Error::new(DiagnosticsError).context("in package hello"));
    assert!(matches!(wrapped, CompileFailure::Diagnostics));

    let other = classify(anyhow::Error::msg("linker not found"));
    assert!(!suppress_error(&other));
    match other {
        CompileFailure::Other(error) => assert_eq!(error.to_string(), "linker not found"),
        CompileFailure::Diagnostics => panic!("not a diagnostics failure"),
    }
}

#[test]
fn errors_are_sorted_as_told() {
    assert_eq!(
        classify_as("boom".to_owned(), true),
        CompileFailure::Diagnostics
    );
    assert_eq!(
        classify_as("boom".to_owned(), false),
        CompileFailure::Other("boom".to_owned())
    );
}

#[test]
fn diagnostics_of_the_compiler_are_not_shown_again() {
    let b = unit("B", "b_pkg");
    let failure = classify(anyhow::Error::new(DiagnosticsError));
    let step = compile_unit(&b, UnitPhase::Compiler, UnitEvent::CompileFailed(failure));
    assert!(step.reports.is_empty());
    assert!(matches!(
        step.next,
        UnitNext::Failed(BuildError::Compilation { ref package }) if package == "b_pkg"
    ));

    let failure = classify(anyhow::Error::msg("out of memory"));
    let step = compile_unit(&b, UnitPhase::Compiler, UnitEvent::CompileFailed(failure));
    assert_eq!(step.reports.len(), 1);
    assert!(matches!(
        &step.reports[0],
        Report::Error(error) if error.to_string() == "out of memory"
    ));
}

#[test]
fn status_lines() {
    assert_eq!(
        compiling(&unit("hello v0.1.0", "hello")),
        Status {
            verb: "Compiling".to_owned(),
            message: "hello v0.1.0".to_owned()
        }
    );
    assert_eq!(
        finished("3 minutes"),
        Status {
            verb: "Finished".to_owned(),
            message: "release target(s) in 3 minutes".to_owned()
        }
    );
}
