//! The protocol between clients and the session server: requests, status
//! snapshots and responses.

use vstd::prelude::*;
use vstd::string::*;

use crate::audio::{AudioInventory, AudioPlan, InventoryView, PlanView};
use crate::config::Config;
use crate::status::{CommandResult, MachineCode, ResultView, Status, StatusView};
use crate::text::{clone_opt, clone_strings, opt_view, str_eq, views};

verus! {

/// Request commands.
#[derive(Debug, Clone, Copy, PartialEq, Eq, Structural)]
pub enum IpcCommand {
    Ping,
    Status,
    StartRegion,
    StartFullscreen,
    /// Both monitors into one file.
    StartBoth,
    Stop,
    ToggleRegion,
    Shutdown,
    Subscribe,
    /// List sinks, microphones and playing applications.
    ListAudio,
}

/// A client's request.
#[derive(Debug, PartialEq, Eq)]
pub struct IpcRequest {
    pub cmd: IpcCommand,
    /// Audio on or off for a start.
    pub audio: Option<bool>,
    /// Full audio plan for a start; wins over `audio`.
    pub audio_plan: Option<AudioPlan>,
    /// The connection counts as a GUI until it ends.
    pub gui: Option<bool>,
    /// Wayland output for a one-monitor start.
    pub output: Option<String>,
    /// Frame rate for a one-monitor start; zero means automatic.
    pub fps: Option<u32>,
}

/// What an [`IpcRequest`] says.
#[verifier::ext_equal]
pub struct RequestView {
    pub cmd: IpcCommand,
    pub audio: Option<bool>,
    pub audio_plan: Option<PlanView>,
    pub gui: Option<bool>,
    pub output: Option<Seq<char>>,
    pub fps: Option<u32>,
}

/// What an optional plan says.
pub open spec fn opt_plan(p: Option<AudioPlan>) -> Option<PlanView> {
    match p {
        Some(p) => Some(p@),
        None => None,
    }
}

impl View for IpcRequest {
    type V = RequestView;

    open spec fn view(&self) -> RequestView {
        RequestView {
            cmd: self.cmd,
            audio: self.audio,
            audio_plan: opt_plan(self.audio_plan),
            gui: self.gui,
            output: opt_view(self.output),
            fps: self.fps,
        }
    }
}

impl RequestView {
    /// A request that sets nothing but its command.
    pub open spec fn bare(cmd: IpcCommand) -> RequestView {
        RequestView { cmd, audio: None, audio_plan: None, gui: None, output: None, fps: None }
    }
}

fn clone_plan(p: &Option<AudioPlan>) -> (r: Option<AudioPlan>)
    ensures
        opt_plan(r) == opt_plan(*p),
{
    match p {
        Some(p) => Some(p.clone()),
        None => None,
    }
}

impl Clone for IpcRequest {
    fn clone(&self) -> (r: Self)
        ensures
            r@ == self@,
    {
        IpcRequest {
            cmd: self.cmd,
            audio: self.audio,
            audio_plan: clone_plan(&self.audio_plan),
            gui: self.gui,
            output: clone_opt(&self.output),
            fps: self.fps,
        }
    }
}

impl IpcRequest {
    fn bare(cmd: IpcCommand) -> (r: Self)
        ensures
            r@ == RequestView::bare(cmd),
    {
        IpcRequest { cmd, audio: None, audio_plan: None, gui: None, output: None, fps: None }
    }

    /// Is the server there?
    pub fn ping() -> (r: Self)
        ensures
            r@ == RequestView::bare(IpcCommand::Ping),
    {
        Self::bare(IpcCommand::Ping)
    }

    /// Ask for the status.
    pub fn status() -> (r: Self)
        ensures
            r@ == RequestView::bare(IpcCommand::Status),
    {
        Self::bare(IpcCommand::Status)
    }

    /// Ask for the audio inventory.
    pub fn list_audio() -> (r: Self)
        ensures
            r@ == RequestView::bare(IpcCommand::ListAudio),
    {
        Self::bare(IpcCommand::ListAudio)
    }

    /// Select a region and record it.
    pub fn start_region(audio: Option<bool>) -> (r: Self)
        ensures
            r@ == (RequestView { audio, ..RequestView::bare(IpcCommand::StartRegion) }),
    {
        IpcRequest { audio, ..Self::bare(IpcCommand::StartRegion) }
    }

    /// Select a region and record it, with a full audio plan.
    pub fn start_region_plan(plan: AudioPlan) -> (r: Self)
        ensures
            r@ == (RequestView {
                audio_plan: Some(plan@),
                ..RequestView::bare(IpcCommand::StartRegion)
            }),
    {
        IpcRequest { audio_plan: Some(plan), ..Self::bare(IpcCommand::StartRegion) }
    }

    /// Record one monitor.
    pub fn start_fullscreen(audio: Option<bool>, output: Option<String>, fps: Option<u32>) -> (r:
        Self)
        ensures
            r@ == (RequestView {
                audio,
                output: opt_view(output),
                fps,
                ..RequestView::bare(IpcCommand::StartFullscreen)
            }),
    {
        IpcRequest { audio, output, fps, ..Self::bare(IpcCommand::StartFullscreen) }
    }

    /// Record one monitor, with a full audio plan.
    pub fn start_fullscreen_plan(plan: AudioPlan, output: Option<String>, fps: Option<u32>) -> (r:
        Self)
        ensures
            r@ == (RequestView {
                audio_plan: Some(plan@),
                output: opt_view(output),
                fps,
                ..RequestView::bare(IpcCommand::StartFullscreen)
            }),
    {
        IpcRequest {
            audio_plan: Some(plan),
            output,
            fps,
            ..Self::bare(IpcCommand::StartFullscreen)
        }
    }

    /// Record both monitors.
    pub fn start_both(audio: Option<bool>) -> (r: Self)
        ensures
            r@ == (RequestView { audio, ..RequestView::bare(IpcCommand::StartBoth) }),
    {
        IpcRequest { audio, ..Self::bare(IpcCommand::StartBoth) }
    }

    /// Record both monitors, with a full audio plan.
    pub fn start_both_plan(plan: AudioPlan) -> (r: Self)
        ensures
            r@ == (RequestView {
                audio_plan: Some(plan@),
                ..RequestView::bare(IpcCommand::StartBoth)
            }),
    {
        IpcRequest { audio_plan: Some(plan), ..Self::bare(IpcCommand::StartBoth) }
    }

    /// Stop.
    pub fn stop() -> (r: Self)
        ensures
            r@ == RequestView::bare(IpcCommand::Stop),
    {
        Self::bare(IpcCommand::Stop)
    }

    /// Start a region, or stop what is under way.
    pub fn toggle_region(audio: Option<bool>) -> (r: Self)
        ensures
            r@ == (RequestView { audio, ..RequestView::bare(IpcCommand::ToggleRegion) }),
    {
        IpcRequest { audio, ..Self::bare(IpcCommand::ToggleRegion) }
    }

    /// End the server.
    pub fn shutdown() -> (r: Self)
        ensures
            r@ == RequestView::bare(IpcCommand::Shutdown),
    {
        Self::bare(IpcCommand::Shutdown)
    }

    /// Attach a GUI.
    pub fn subscribe() -> (r: Self)
        ensures
            r@ == (RequestView { gui: Some(true), ..RequestView::bare(IpcCommand::Subscribe) }),
    {
        IpcRequest { gui: Some(true), ..Self::bare(IpcCommand::Subscribe) }
    }

    /// The audio plan in force for a start.
    pub fn resolved_audio_plan(&self, config: &Config) -> (r: AudioPlan)
        ensures
            r@ == request_plan(self@, config@.plan()),
    {
        AudioPlan::resolve(clone_plan(&self.audio_plan), self.audio, config)
    }
}

/// The audio plan in force for a request: its plan, else its switch, else the
/// configured plan.
pub open spec fn request_plan(req: RequestView, configured: PlanView) -> PlanView {
    match req.audio_plan {
        Some(p) => p.normal(),
        None => match req.audio {
            Some(true) => PlanView::everything(),
            Some(false) => PlanView::silent(),
            None => configured,
        },
    }
}

/// Status snapshot in a response.
#[derive(Debug, PartialEq, Eq)]
pub struct IpcStatus {
    pub state: String,
    pub output_path: Option<String>,
    pub pid: Option<u32>,
    pub started_at_unix: Option<u64>,
    pub audio: bool,
    pub last_error: Option<String>,
    pub last_success_path: Option<String>,
    pub elapsed_ms: Option<u64>,
    /// What is being captured.
    pub capture_output: Option<String>,
    /// `region`, `one` or `both`.
    pub capture_mode: Option<String>,
}

/// What an [`IpcStatus`] says.
#[verifier::ext_equal]
pub struct IpcStatusView {
    pub state: Seq<char>,
    pub output_path: Option<Seq<char>>,
    pub pid: Option<u32>,
    pub started_at_unix: Option<u64>,
    pub audio: bool,
    pub last_error: Option<Seq<char>>,
    pub last_success_path: Option<Seq<char>>,
    pub elapsed_ms: Option<u64>,
    pub capture_output: Option<Seq<char>>,
    pub capture_mode: Option<Seq<char>>,
}

impl View for IpcStatus {
    type V = IpcStatusView;

    open spec fn view(&self) -> IpcStatusView {
        IpcStatusView {
            state: self.state@,
            output_path: opt_view(self.output_path),
            pid: self.pid,
            started_at_unix: self.started_at_unix,
            audio: self.audio,
            last_error: opt_view(self.last_error),
            last_success_path: opt_view(self.last_success_path),
            elapsed_ms: self.elapsed_ms,
            capture_output: opt_view(self.capture_output),
            capture_mode: opt_view(self.capture_mode),
        }
    }
}

impl IpcStatusView {
    /// The snapshot of a status.
    pub open spec fn of(s: StatusView) -> IpcStatusView {
        IpcStatusView {
            state: s.state.name(),
            output_path: s.output_path,
            pid: s.pid,
            started_at_unix: s.started_at_unix,
            audio: s.audio,
            last_error: s.last_error,
            last_success_path: s.last_success_path,
            elapsed_ms: s.elapsed_ms,
            capture_output: s.capture_output,
            capture_mode: s.capture_mode,
        }
    }
}

impl IpcStatus {
    /// The snapshot of a status.
    pub fn from(s: &Status) -> (r: Self)
        ensures
            r@ == IpcStatusView::of(s@),
    {
        IpcStatus {
            state: s.state.as_str().to_owned(),
            output_path: clone_opt(&s.output_path),
            pid: s.pid,
            started_at_unix: s.started_at_unix,
            audio: s.audio,
            last_error: clone_opt(&s.last_error),
            last_success_path: clone_opt(&s.last_success_path),
            elapsed_ms: s.elapsed_ms,
            capture_output: clone_opt(&s.capture_output),
            capture_mode: clone_opt(&s.capture_mode),
        }
    }
}

impl Clone for IpcStatus {
    fn clone(&self) -> (r: Self)
        ensures
            r@ == self@,
    {
        IpcStatus {
            state: self.state.clone(),
            output_path: clone_opt(&self.output_path),
            pid: self.pid,
            started_at_unix: self.started_at_unix,
            audio: self.audio,
            last_error: clone_opt(&self.last_error),
            last_success_path: clone_opt(&self.last_success_path),
            elapsed_ms: self.elapsed_ms,
            capture_output: clone_opt(&self.capture_output),
            capture_mode: clone_opt(&self.capture_mode),
        }
    }
}

/// The audio inventory as a payload.
#[derive(Debug, PartialEq, Eq)]
pub struct IpcAudioList {
    pub inventory: AudioInventory,
}

/// The server's response.
#[derive(Debug, PartialEq, Eq)]
pub struct IpcResponse {
    pub ok: bool,
    pub code: String,
    pub message: String,
    pub status: IpcStatus,
    pub warnings: Vec<String>,
    /// There for [`IpcCommand::ListAudio`].
    pub audio_list: Option<AudioInventory>,
}

/// What an [`IpcResponse`] says.
#[verifier::ext_equal]
pub struct ResponseView {
    pub ok: bool,
    pub code: Seq<char>,
    pub message: Seq<char>,
    pub status: IpcStatusView,
    pub warnings: Seq<Seq<char>>,
    pub audio_list: Option<InventoryView>,
}

/// What an optional inventory says.
pub open spec fn opt_inventory(o: Option<AudioInventory>) -> Option<InventoryView> {
    match o {
        Some(i) => Some(i@),
        None => None,
    }
}

impl View for IpcResponse {
    type V = ResponseView;

    open spec fn view(&self) -> ResponseView {
        ResponseView {
            ok: self.ok,
            code: self.code@,
            message: self.message@,
            status: self.status@,
            warnings: views(self.warnings@),
            audio_list: opt_inventory(self.audio_list),
        }
    }
}

impl ResponseView {
    /// The response for the result of a command.
    pub open spec fn of(r: ResultView, s: StatusView) -> ResponseView {
        ResponseView {
            ok: r.ok,
            code: r.code.word(),
            message: r.message,
            status: IpcStatusView::of(s),
            warnings: r.warnings,
            audio_list: None,
        }
    }
}

/// The code that a word stands for; an unknown word stands for `Invalid`.
pub open spec fn code_named(word: Seq<char>) -> MachineCode {
    if word == "ok"@ {
        MachineCode::Success
    } else if word == "busy"@ {
        MachineCode::Busy
    } else if word == "not_recording"@ {
        MachineCode::NotRecording
    } else if word == "dep_missing"@ {
        MachineCode::DepMissing
    } else if word == "slurp_cancel"@ {
        MachineCode::SlurpCancel
    } else if word == "spawn_failed"@ {
        MachineCode::SpawnFailed
    } else if word == "stop_timeout"@ {
        MachineCode::StopTimeout
    } else if word == "io_error"@ {
        MachineCode::IoError
    } else {
        MachineCode::Invalid
    }
}

impl IpcResponse {
    /// The response for the result of a command.
    pub fn from_command_result(result: &CommandResult, status: &Status) -> (r: Self)
        ensures
            r@ == ResponseView::of(result@, status@),
    {
        IpcResponse {
            ok: result.ok,
            code: result.code.as_str().to_owned(),
            message: result.message.clone(),
            status: IpcStatus::from(status),
            warnings: clone_strings(&result.warnings),
            audio_list: None,
        }
    }

    /// Success with a message.
    pub fn ok_status(message: &str, status: &Status) -> (r: Self)
        ensures
            r@ == ResponseView::of(ResultView::done(message@), status@),
    {
        Self::from_command_result(&CommandResult::ok_msg(message), status)
    }

    /// Failure with a code and a message.
    pub fn err(code: MachineCode, message: &str, status: &Status) -> (r: Self)
        ensures
            r@ == ResponseView::of(ResultView::failed(code, message@), status@),
    {
        Self::from_command_result(&CommandResult::err(code, message), status)
    }

    /// The audio inventory.
    pub fn audio_list(inv: AudioInventory, status: &Status) -> (r: Self)
        ensures
            r@ == (ResponseView {
                audio_list: Some(inv@),
                ..ResponseView::of(ResultView::done("audio inventory"@), status@)
            }),
    {
        let mut r = Self::ok_status("audio inventory", status);
        r.audio_list = Some(inv);
        r
    }

    /// The code of the response.
    pub fn machine_code(&self) -> (r: MachineCode)
        ensures
            r == code_named(self@.code),
    {
        let c = self.code.as_str();
        if str_eq(c, "ok") {
            MachineCode::Success
        } else if str_eq(c, "busy") {
            MachineCode::Busy
        } else if str_eq(c, "not_recording") {
            MachineCode::NotRecording
        } else if str_eq(c, "dep_missing") {
            MachineCode::DepMissing
        } else if str_eq(c, "slurp_cancel") {
            MachineCode::SlurpCancel
        } else if str_eq(c, "spawn_failed") {
            MachineCode::SpawnFailed
        } else if str_eq(c, "stop_timeout") {
            MachineCode::StopTimeout
        } else if str_eq(c, "io_error") {
            MachineCode::IoError
        } else {
            MachineCode::Invalid
        }
    }

    /// The exit code of a command that gets this response.
    pub fn cli_exit_code(&self) -> (r: i32)
        ensures
            r == code_named(self@.code).exit(),
    {
        self.machine_code().exit_code()
    }
}

/// The word for a code stands for that code.
pub proof fn code_word_names_code(c: MachineCode)
    ensures
        code_named(c.word()) == c,
{
    reveal_strlit("ok");
    reveal_strlit("busy");
    reveal_strlit("not_recording");
    reveal_strlit("dep_missing");
    reveal_strlit("slurp_cancel");
    reveal_strlit("spawn_failed");
    reveal_strlit("stop_timeout");
    reveal_strlit("io_error");
    reveal_strlit("invalid");
    let w = c.word();
    assert(w[0] == c.word()[0]);
    assert("slurp_cancel"@[1] == 'l' && "spawn_failed"@[1] == 'p' && "stop_timeout"@[1] == 't');
    assert("io_error"@[1] == 'o' && "invalid"@[1] == 'n');
    assert("not_recording"@[0] == 'n' && "dep_missing"@[0] == 'd' && "busy"@[0] == 'b' && "ok"@[0]
        == 'o');
}

/// The exit code of a client is that of the command's own result.
pub proof fn response_keeps_exit_code(r: ResultView, s: StatusView)
    ensures
        code_named(ResponseView::of(r, s).code).exit() == r.code.exit(),
{
    code_word_names_code(r.code);
}

} // verus!
