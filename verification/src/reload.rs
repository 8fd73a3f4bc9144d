//! The reload orchestrator's state machine: the host cycles through
//! compiling the stub, running the loaded module, and waiting for the
//! next save of the source file, forever. The decisions live here; the
//! host performs each prescribed action — compiling, loading, file and
//! viewer I/O — and feeds the outcome back as the next event.

use vstd::prelude::*;

verus! {

/// Where the reload cycle stands. The initial state is `Compiling`;
/// there is no terminal state short of process exit.
#[derive(Copy, Clone, Debug, PartialEq, Eq, Structural)]
pub enum ReloadState {
    /// the stub is being compiled
    Compiling,
    /// a module is loaded and its entry function has the thread
    Running,
    /// the compile failed; its diagnostics go to the log sink
    CompileFailed,
    /// blocked until the source file is saved again
    WaitingForChange,
}

/// What the host reports back after performing the prescribed action.
#[derive(Copy, Clone, Debug, PartialEq, Eq, Structural)]
pub enum ReloadEvent {
    /// the toolchain produced a loadable artifact
    CompileSucceeded,
    /// the toolchain exited non-zero; its diagnostics are in the log sink
    CompileFailed,
    /// the module's entry function returned control
    RunFinished,
    /// the failure diagnostics have been flushed to the log sink
    DiagnosticsLogged,
    /// the watched source file was saved
    SourceChanged,
}

/// What the host must do next.
#[derive(Copy, Clone, Debug, PartialEq, Eq, Structural)]
pub enum HostAction {
    /// read the artifact's column table and cap, rebuild the
    /// output-to-input map, and call the module's entry function
    LoadAndRun,
    /// make the compile diagnostics visible in the log sink
    LogDiagnostics,
    /// nudge the viewer, bypassing the rate limiter
    NotifyViewer,
    /// block on the next source-file change notification
    AwaitChange,
    /// truncate the output and log sinks, zero the row counter, and
    /// compile the stub; the previous module is already unloaded
    BeginCycle,
    /// the event does not belong to this state; do nothing
    Ignore,
}

/// The transition relation of the reload cycle:
/// `Compiling → {Running → WaitingForChange} | {CompileFailed →
/// WaitingForChange} → Compiling`, cycling forever. An event foreign to
/// the state leaves it unchanged.
pub open spec fn spec_step(s: ReloadState, e: ReloadEvent) -> (ReloadState, HostAction) {
    match (s, e) {
        (ReloadState::Compiling, ReloadEvent::CompileSucceeded) => (
            ReloadState::Running,
            HostAction::LoadAndRun,
        ),
        (ReloadState::Compiling, ReloadEvent::CompileFailed) => (
            ReloadState::CompileFailed,
            HostAction::LogDiagnostics,
        ),
        (ReloadState::CompileFailed, ReloadEvent::DiagnosticsLogged) => (
            ReloadState::WaitingForChange,
            HostAction::AwaitChange,
        ),
        (ReloadState::Running, ReloadEvent::RunFinished) => (
            ReloadState::WaitingForChange,
            HostAction::NotifyViewer,
        ),
        (ReloadState::WaitingForChange, ReloadEvent::SourceChanged) => (
            ReloadState::Compiling,
            HostAction::BeginCycle,
        ),
        _ => (s, HostAction::Ignore),
    }
}

/// Whether a native module is mapped into the process in this state.
/// Only while `Running` does the host hold a loaded module.
pub open spec fn module_loaded(s: ReloadState) -> bool {
    s is Running
}

/// Advance the reload cycle by one event.
pub fn step(s: ReloadState, e: ReloadEvent) -> (r: (ReloadState, HostAction))
    ensures
        r == spec_step(s, e),
{
    match (s, e) {
        (ReloadState::Compiling, ReloadEvent::CompileSucceeded) => (
            ReloadState::Running,
            HostAction::LoadAndRun,
        ),
        (ReloadState::Compiling, ReloadEvent::CompileFailed) => (
            ReloadState::CompileFailed,
            HostAction::LogDiagnostics,
        ),
        (ReloadState::CompileFailed, ReloadEvent::DiagnosticsLogged) => (
            ReloadState::WaitingForChange,
            HostAction::AwaitChange,
        ),
        (ReloadState::Running, ReloadEvent::RunFinished) => (
            ReloadState::WaitingForChange,
            HostAction::NotifyViewer,
        ),
        (ReloadState::WaitingForChange, ReloadEvent::SourceChanged) => (
            ReloadState::Compiling,
            HostAction::BeginCycle,
        ),
        _ => (s, HostAction::Ignore),
    }
}

/// The artifact is only ever overwritten with no module mapped: a new
/// cycle begins only out of the waiting state, a module is loaded and
/// run only out of a compile, and a failed compile leaves the cycle with
/// no module loaded until the next save.
pub proof fn lemma_stale_handle_never_run(s: ReloadState, e: ReloadEvent)
    ensures
        spec_step(s, e).1 is BeginCycle ==> s is WaitingForChange && !module_loaded(s),
        spec_step(s, e).1 is LoadAndRun ==> s is Compiling && !module_loaded(s),
        s is Compiling && e is CompileFailed ==> !module_loaded(spec_step(s, e).0),
{
}

/// Whether the viewer should be nudged now: a forced refresh always, an
/// ordinary one only when the last nudge lies more than the minimum
/// spacing back.
pub fn notify_due(force: bool, now_ms: u64, last_ms: u64) -> (r: bool)
    ensures
        r == (force || now_ms as int > last_ms as int + 100),
{
    force || (now_ms > 100 && now_ms - 100 > last_ms)
}

} // verus!
