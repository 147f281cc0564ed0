//! Session states, result codes, command results and status snapshots.

use vstd::prelude::*;
use vstd::string::*;

use crate::text::{opt_view, views};

verus! {

/// Session states.
#[derive(Debug, Clone, Copy, PartialEq, Eq, Structural)]
pub enum State {
    Idle,
    SelectingRegion,
    Starting,
    Recording,
    Stopping,
}

impl State {
    /// The name of the state.
    pub open spec fn name(self) -> Seq<char> {
        match self {
            State::Idle => "Idle"@,
            State::SelectingRegion => "SelectingRegion"@,
            State::Starting => "Starting"@,
            State::Recording => "Recording"@,
            State::Stopping => "Stopping"@,
        }
    }

    /// The name of the state.
    pub fn as_str(self) -> (r: &'static str)
        ensures
            r@ == self.name(),
    {
        match self {
            State::Idle => "Idle",
            State::SelectingRegion => "SelectingRegion",
            State::Starting => "Starting",
            State::Recording => "Recording",
            State::Stopping => "Stopping",
        }
    }

    /// Whether a session is under way.
    pub fn is_busy(self) -> (r: bool)
        ensures
            r == (self != State::Idle),
    {
        match self {
            State::Idle => false,
            _ => true,
        }
    }
}

/// Machine-readable result codes.
#[derive(Debug, Clone, Copy, PartialEq, Eq, Structural)]
pub enum MachineCode {
    Success,
    Busy,
    NotRecording,
    DepMissing,
    SlurpCancel,
    SpawnFailed,
    StopTimeout,
    IoError,
    Invalid,
}

impl MachineCode {
    /// The word that stands for the code.
    pub open spec fn word(self) -> Seq<char> {
        match self {
            MachineCode::Success => "ok"@,
            MachineCode::Busy => "busy"@,
            MachineCode::NotRecording => "not_recording"@,
            MachineCode::DepMissing => "dep_missing"@,
            MachineCode::SlurpCancel => "slurp_cancel"@,
            MachineCode::SpawnFailed => "spawn_failed"@,
            MachineCode::StopTimeout => "stop_timeout"@,
            MachineCode::IoError => "io_error"@,
            MachineCode::Invalid => "invalid"@,
        }
    }

    /// The exit code of a command that ends with the code.
    pub open spec fn exit(self) -> i32 {
        match self {
            MachineCode::Success => 0,
            MachineCode::SlurpCancel => 0,
            MachineCode::Busy => 2,
            MachineCode::NotRecording => 3,
            MachineCode::DepMissing => 4,
            _ => 1,
        }
    }

    /// The word that stands for the code.
    pub fn as_str(self) -> (r: &'static str)
        ensures
            r@ == self.word(),
    {
        match self {
            MachineCode::Success => "ok",
            MachineCode::Busy => "busy",
            MachineCode::NotRecording => "not_recording",
            MachineCode::DepMissing => "dep_missing",
            MachineCode::SlurpCancel => "slurp_cancel",
            MachineCode::SpawnFailed => "spawn_failed",
            MachineCode::StopTimeout => "stop_timeout",
            MachineCode::IoError => "io_error",
            MachineCode::Invalid => "invalid",
        }
    }

    /// The exit code of a command that ends with the code.
    pub fn exit_code(self) -> (r: i32)
        ensures
            r == self.exit(),
    {
        match self {
            MachineCode::Success => 0,
            MachineCode::SlurpCancel => 0,
            MachineCode::Busy => 2,
            MachineCode::NotRecording => 3,
            MachineCode::DepMissing => 4,
            _ => 1,
        }
    }
}

/// Outcome of a recorder command.
#[derive(Debug, Clone, PartialEq, Eq)]
pub struct CommandResult {
    pub ok: bool,
    pub code: MachineCode,
    pub message: String,
    pub warnings: Vec<String>,
}

/// What a [`CommandResult`] says.
#[verifier::ext_equal]
pub struct ResultView {
    pub ok: bool,
    pub code: MachineCode,
    pub message: Seq<char>,
    pub warnings: Seq<Seq<char>>,
}

impl View for CommandResult {
    type V = ResultView;

    open spec fn view(&self) -> ResultView {
        ResultView {
            ok: self.ok,
            code: self.code,
            message: self.message@,
            warnings: views(self.warnings@),
        }
    }
}

impl ResultView {
    /// Success.
    pub open spec fn done(message: Seq<char>) -> ResultView {
        ResultView { ok: true, code: MachineCode::Success, message, warnings: Seq::empty() }
    }

    /// Failure.
    pub open spec fn failed(code: MachineCode, message: Seq<char>) -> ResultView {
        ResultView { ok: false, code, message, warnings: Seq::empty() }
    }

    /// The user gave up selecting a region.
    pub open spec fn cancelled() -> ResultView {
        ResultView {
            ok: true,
            code: MachineCode::SlurpCancel,
            message: "region selection cancelled"@,
            warnings: Seq::empty(),
        }
    }

    /// The session is busy.
    pub open spec fn busy(state: State) -> ResultView {
        ResultView::failed(MachineCode::Busy, "busy: state is "@ + state.name())
    }
}

impl CommandResult {
    /// Success with a message.
    pub fn ok_msg(message: &str) -> (r: Self)
        ensures
            r@ == ResultView::done(message@),
    {
        let r = CommandResult {
            ok: true,
            code: MachineCode::Success,
            message: message.to_owned(),
            warnings: Vec::new(),
        };
        assert(r@.warnings =~= Seq::empty());
        r
    }

    /// Success with a message and warnings.
    pub fn with_warnings(message: &str, warnings: Vec<String>) -> (r: Self)
        ensures
            r@ == (ResultView {
                ok: true,
                code: MachineCode::Success,
                message: message@,
                warnings: views(warnings@),
            }),
    {
        CommandResult { ok: true, code: MachineCode::Success, message: message.to_owned(), warnings }
    }

    /// Failure with a code and a message.
    pub fn err(code: MachineCode, message: &str) -> (r: Self)
        ensures
            r@ == ResultView::failed(code, message@),
    {
        let r = CommandResult { ok: false, code, message: message.to_owned(), warnings: Vec::new() };
        assert(r@.warnings =~= Seq::empty());
        r
    }

    /// The user gave up selecting a region.
    pub fn cancelled() -> (r: Self)
        ensures
            r@ == ResultView::cancelled(),
    {
        let r = CommandResult {
            ok: true,
            code: MachineCode::SlurpCancel,
            message: "region selection cancelled".to_owned(),
            warnings: Vec::new(),
        };
        assert(r@.warnings =~= Seq::empty());
        r
    }

    /// Whether the command worked but has warnings.
    pub fn is_success_with_warnings(&self) -> (r: bool)
        ensures
            r == (self@.ok && self@.warnings.len() > 0),
    {
        self.ok && self.warnings.len() > 0
    }
}

/// Snapshot of a session.
#[derive(Debug, Clone, PartialEq, Eq)]
pub struct Status {
    pub state: State,
    pub output_path: Option<String>,
    pub pid: Option<u32>,
    pub started_at_unix: Option<u64>,
    pub audio: bool,
    pub last_error: Option<String>,
    pub last_success_path: Option<String>,
    pub elapsed_ms: Option<u64>,
    /// The Wayland output being captured, if a whole output is.
    pub capture_output: Option<String>,
    /// `region`, `one` or `both`.
    pub capture_mode: Option<String>,
}

/// What a [`Status`] says.
#[verifier::ext_equal]
pub struct StatusView {
    pub state: State,
    pub output_path: Option<Seq<char>>,
    pub pid: Option<u32>,
    pub started_at_unix: Option<u64>,
    pub audio: bool,
    pub last_error: Option<Seq<char>>,
    pub last_success_path: Option<Seq<char>>,
    pub elapsed_ms: Option<u64>,
    pub capture_output: Option<Seq<char>>,
    pub capture_mode: Option<Seq<char>>,
}

impl View for Status {
    type V = StatusView;

    open spec fn view(&self) -> StatusView {
        StatusView {
            state: self.state,
            output_path: opt_view(self.output_path),
            pid: self.pid,
            started_at_unix: self.started_at_unix,
            audio: self.audio,
            last_error: opt_view(self.last_error),
            last_success_path: opt_view(self.last_success_path),
            elapsed_ms: self.elapsed_ms,
            capture_output: opt_view(self.capture_output),
            capture_mode: opt_view(self.capture_mode),
        }
    }
}

} // verus!
