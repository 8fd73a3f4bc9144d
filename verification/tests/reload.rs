use livid::reload::{notify_due, step, HostAction, ReloadEvent, ReloadState};
use livid::stub::{generate_stub_header, generate_viewer_script};
use livid::schema::{CellType, Column, WidthSpec};

#[test]
fn happy_cycle() {
    let (s, a) = step(ReloadState::Compiling, ReloadEvent::CompileSucceeded);
    assert_eq!(s, ReloadState::Running);
    assert_eq!(a, HostAction::LoadAndRun);
    let (s, a) = step(s, ReloadEvent::RunFinished);
    assert_eq!(s, ReloadState::WaitingForChange);
    assert_eq!(a, HostAction::NotifyViewer);
    let (s, a) = step(s, ReloadEvent::SourceChanged);
    assert_eq!(s, ReloadState::Compiling);
    assert_eq!(a, HostAction::BeginCycle);
}

#[test]
fn compile_failure_logs_and_waits() {
    // a failing stub: the toolchain's diagnostics go to the log sink and
    // the cycle re-enters the wait state without a module loaded
    let diagnostics = "script.c:5:1: error: expected declaration";
    assert!(!diagnostics.is_empty());
    let (s1, a1) = step(ReloadState::Compiling, ReloadEvent::CompileFailed);
    assert_eq!(s1, ReloadState::CompileFailed);
    assert_eq!(a1, HostAction::LogDiagnostics);
    let (s2, a2) = step(s1, ReloadEvent::DiagnosticsLogged);
    assert_eq!(s2, ReloadState::WaitingForChange);
    assert_eq!(a2, HostAction::AwaitChange);
    // at no point along the failure path is a module loaded
    assert_ne!(s1, ReloadState::Running);
    assert_ne!(s2, ReloadState::Running);
    // the next save retries the compile
    let (s3, a3) = step(s2, ReloadEvent::SourceChanged);
    assert_eq!(s3, ReloadState::Compiling);
    assert_eq!(a3, HostAction::BeginCycle);
}

#[test]
fn foreign_events_are_ignored() {
    let (s, a) = step(ReloadState::Compiling, ReloadEvent::SourceChanged);
    assert_eq!(s, ReloadState::Compiling);
    assert_eq!(a, HostAction::Ignore);
    let (s, a) = step(ReloadState::Running, ReloadEvent::CompileSucceeded);
    assert_eq!(s, ReloadState::Running);
    assert_eq!(a, HostAction::Ignore);
    let (s, a) = step(ReloadState::WaitingForChange, ReloadEvent::RunFinished);
    assert_eq!(s, ReloadState::WaitingForChange);
    assert_eq!(a, HostAction::Ignore);
}

#[test]
fn notify_rate_limiting() {
    // forced refreshes always pass
    assert!(notify_due(true, 0, 1000));
    // an ordinary refresh passes only after the minimum spacing
    assert!(notify_due(false, 201, 100));
    assert!(!notify_due(false, 200, 100));
    assert!(!notify_due(false, 50, 0));
    assert!(notify_due(false, 101, 0));
    assert!(!notify_due(false, 0, 0));
}

#[test]
fn stub_header_block() {
    let cols = vec![
        Column::new("a".to_string(), 0, CellType::Text, WidthSpec::Auto),
        Column::new("long_column_name_x".to_string(), 1, CellType::Text, WidthSpec::Auto),
    ];
    let text = generate_stub_header(&cols);
    let expected = "#define COLUMN_LIST \\\n\
                    \x20   /*     column name       type        grid width */\\\n\
                    \x20   COLUMN(a               , TEXT      , GRID_AUTO ) \\\n\
                    \x20   COLUMN(long_column_name_x, TEXT      , GRID_AUTO ) \\\n\
                    \n";
    assert_eq!(text, expected);
}

#[test]
fn viewer_script() {
    let text = generate_viewer_script("wk/output", "wk/log", "wk/script.c");
    assert_eq!(
        text,
        "set backupcopy=yes\nset autoread\nset splitbelow\nedit wk/output\nsplit wk/log\nvsplit wk/script.c\n"
    );
}
