//! The session server's decisions: what a request does, who is answered and
//! when the server ends. Sockets and files stay with the caller.

use vstd::prelude::*;
use vstd::string::*;

use crate::audio::{AudioError, AudioErrorView, AudioInventory};
use crate::both::both_run;
use crate::ipc::{
    request_plan, IpcCommand, IpcRequest, IpcResponse, IpcStatus, RequestView, ResponseView,
};
use crate::outputs::{names_of, output_names, output_views, OutputInfo, OutputView};
use crate::path::{join_path, joined_path};
use crate::ports::{Clipboard, Clock, CommandSpawner, Notifier};
use crate::recorder::{opt_step, Recorder, Step};
use crate::session::{
    begin_run, fullscreen_run, poll_run, region_run, shutdown_run, stop_run, toggle_run, RecView,
    StepView,
};
use crate::status::{CommandResult, MachineCode, ResultView, State, StatusView};
use crate::text::{borrow_opt, concat2, concat3};
use crate::trace::{added, grown, lemma_added, PortCall};

verus! {

/// Name of the control socket.
pub const SOCKET_NAME: &'static str = "record-ui.sock";

/// Name of the pid file.
pub const PID_NAME: &'static str = "record-ui.pid";

/// Name of the lock file.
pub const LOCK_NAME: &'static str = "record-ui.lock";

/// Cap on a request or response line, in bytes.
pub const MAX_LINE_BYTES: usize = 65_536;

/// Paths below a runtime directory.
#[derive(Debug, Clone, PartialEq, Eq)]
pub struct RuntimePaths {
    pub runtime_dir: String,
    pub socket_path: String,
    pub pid_path: String,
    pub lock_path: String,
}

impl RuntimePaths {
    /// The paths below `runtime_dir`.
    pub fn from_runtime_dir(runtime_dir: &str) -> (r: Self)
        ensures
            r.runtime_dir@ == runtime_dir@,
            r.socket_path@ == joined_path(runtime_dir@, "record-ui.sock"@),
            r.pid_path@ == joined_path(runtime_dir@, "record-ui.pid"@),
            r.lock_path@ == joined_path(runtime_dir@, "record-ui.lock"@),
    {
        RuntimePaths {
            runtime_dir: runtime_dir.to_owned(),
            socket_path: join_path(runtime_dir, SOCKET_NAME),
            pid_path: join_path(runtime_dir, PID_NAME),
            lock_path: join_path(runtime_dir, LOCK_NAME),
        }
    }
}

// ---------------------------------------------------------------------------
// Requests
// ---------------------------------------------------------------------------

/// What a request needs.
#[derive(Debug)]
pub enum Work {
    /// The recorder works on it.
    Recorder(Step),
    /// The audio inventory is needed: see [`audio_list_response`].
    ListAudio,
    /// A region is being selected: the client waits until that is over.
    Park,
}

/// What a [`Work`] says.
#[verifier::ext_equal]
pub enum WorkView {
    Recorder(StepView),
    ListAudio,
    Park,
}

impl View for Work {
    type V = WorkView;

    open spec fn view(&self) -> WorkView {
        match self {
            Work::Recorder(s) => WorkView::Recorder(s@),
            Work::ListAudio => WorkView::ListAudio,
            Work::Park => WorkView::Park,
        }
    }
}

/// A response, and whether the server ends after it.
#[derive(Debug)]
pub struct HandleOutcome {
    pub response: IpcResponse,
    pub want_shutdown: bool,
}

/// `resp` answers with the result `r` and the recorder's status.
pub open spec fn answers<S, C, N, Cl>(
    resp: ResponseView,
    r: ResultView,
    recorder: Recorder<S, C, N, Cl>,
) -> bool where S: CommandSpawner, C: Clock, N: Notifier, Cl: Clipboard {
    exists|s: StatusView| #[trigger] recorder.is_status(s) && resp == ResponseView::of(r, s)
}

/// Whether a start that the request asks for records audio.
pub open spec fn request_audio(req: RequestView, rec: RecView) -> bool {
    request_plan(req, rec.config.plan()).records()
}

/// A command that is over at once.
pub open spec fn at_once(
    pre: RecView,
    message: Seq<char>,
    calls: Seq<PortCall>,
    post: RecView,
    out: WorkView,
) -> bool {
    &&& calls.len() == 0
    &&& post == pre
    &&& out == WorkView::Recorder(StepView::Done(ResultView::done(message)))
}

/// How a request is carried out, waiting for a region to be selected.
pub open spec fn request_run(
    pre: RecView,
    req: RequestView,
    gui_clients: u32,
    outputs: Seq<OutputView>,
    calls: Seq<PortCall>,
    post: RecView,
    out: WorkView,
) -> bool {
    let audio = Some(request_audio(req, pre));
    let notify_start = gui_clients == 0;
    match req.cmd {
        IpcCommand::Ping => at_once(pre, "pong"@, calls, post, out),
        IpcCommand::Status => at_once(pre, "status"@, calls, post, out),
        IpcCommand::Subscribe => at_once(pre, "subscribed"@, calls, post, out),
        IpcCommand::ListAudio => calls.len() == 0 && post == pre && out == WorkView::ListAudio,
        IpcCommand::StartRegion => out is Recorder && region_run(
            pre,
            audio,
            notify_start,
            calls,
            post,
            out->0,
        ),
        IpcCommand::StartFullscreen => out is Recorder && fullscreen_run(
            pre,
            audio,
            notify_start,
            req.output,
            req.fps,
            names_of(outputs),
            calls,
            post,
            out->0,
        ),
        IpcCommand::StartBoth => out is Recorder && both_run(
            pre,
            audio,
            notify_start,
            outputs,
            calls,
            post,
            out->0,
        ),
        IpcCommand::ToggleRegion => out is Recorder && toggle_run(
            pre,
            audio,
            notify_start,
            calls,
            post,
            out->0,
        ),
        IpcCommand::Stop => out is Recorder && stop_run(pre, calls, post, out->0),
        IpcCommand::Shutdown => out is Recorder && shutdown_run(pre, calls, post, out->0),
    }
}

fn effective_audio<S, C, N, Cl>(recorder: &Recorder<S, C, N, Cl>, req: &IpcRequest) -> (r: bool)
    where
        S: CommandSpawner,
        C: Clock,
        N: Notifier,
        Cl: Clipboard,

    ensures
        r == request_audio(req@, recorder@),
{
    req.resolved_audio_plan(recorder.config()).enabled()
}

/// Begin to carry out a request, waiting for a region to be selected.
/// [`finish_request`] turns the result into a response.
pub fn handle_request<S, C, N, Cl>(
    recorder: &mut Recorder<S, C, N, Cl>,
    req: &IpcRequest,
    gui_clients: u32,
    outputs: &Vec<OutputInfo>,
) -> (r: Work) where S: CommandSpawner, C: Clock, N: Notifier, Cl: Clipboard
    requires
        old(recorder)@.wf(),
    ensures
        final(recorder)@.wf(),
        grown(final(recorder).calls(), old(recorder).calls()),
        final(recorder).keeps_ports(*old(recorder)),
        request_run(
            old(recorder)@,
            req@,
            gui_clients,
            output_views(outputs@),
            added(final(recorder).calls(), old(recorder).calls()),
            final(recorder)@,
            r@,
        ),
{
    proof {
        lemma_added(recorder.calls(), recorder.calls(), Seq::empty());
    }
    let notify_start = gui_clients == 0;
    let audio = Some(effective_audio(recorder, req));
    match req.cmd {
        IpcCommand::Ping => Work::Recorder(Step::Done(CommandResult::ok_msg("pong"))),
        IpcCommand::Status => Work::Recorder(Step::Done(CommandResult::ok_msg("status"))),
        IpcCommand::Subscribe => Work::Recorder(Step::Done(CommandResult::ok_msg("subscribed"))),
        IpcCommand::ListAudio => Work::ListAudio,
        IpcCommand::StartRegion => Work::Recorder(recorder.start_region(audio, notify_start)),
        IpcCommand::StartFullscreen => Work::Recorder(
            recorder.start_fullscreen(
                audio,
                notify_start,
                borrow_opt(&req.output),
                req.fps,
                &output_names(outputs),
            ),
        ),
        IpcCommand::StartBoth => Work::Recorder(recorder.start_both(audio, notify_start, outputs)),
        IpcCommand::ToggleRegion => Work::Recorder(recorder.toggle_region(audio, notify_start)),
        IpcCommand::Stop => Work::Recorder(recorder.stop()),
        IpcCommand::Shutdown => Work::Recorder(recorder.shut_down()),
    }
}

/// The result of a shutdown whose stop ended with `r`: a stop that failed shows
/// through.
pub open spec fn shutdown_view(r: ResultView) -> ResultView {
    match r.code {
        MachineCode::Success => ResultView::done("shutting down"@),
        MachineCode::SlurpCancel => ResultView {
            ok: true,
            code: MachineCode::Success,
            message: "shutting down ("@ + r.message + ")"@,
            warnings: r.warnings,
        },
        _ => ResultView { message: "shutting down: "@ + r.message, ..r },
    }
}

/// The result of a request's command, given that of the recorder.
pub open spec fn request_result(cmd: IpcCommand, r: ResultView) -> ResultView {
    if cmd == IpcCommand::Shutdown {
        shutdown_view(r)
    } else {
        r
    }
}

/// The result of a shutdown whose stop ended with `stop_result`.
pub fn shutdown_result(stop_result: CommandResult) -> (r: CommandResult)
    ensures
        r@ == shutdown_view(stop_result@),
{
    match stop_result.code {
        MachineCode::Success => CommandResult::ok_msg("shutting down"),
        MachineCode::SlurpCancel => CommandResult {
            ok: true,
            code: MachineCode::Success,
            message: concat3("shutting down (", stop_result.message.as_str(), ")"),
            warnings: stop_result.warnings,
        },
        _ => CommandResult {
            ok: stop_result.ok,
            code: stop_result.code,
            message: concat2("shutting down: ", stop_result.message.as_str()),
            warnings: stop_result.warnings,
        },
    }
}

fn respond<S, C, N, Cl>(recorder: &Recorder<S, C, N, Cl>, result: &CommandResult) -> (r:
    IpcResponse) where S: CommandSpawner, C: Clock, N: Notifier, Cl: Clipboard
    ensures
        answers(r@, result@, *recorder),
{
    let status = recorder.status();
    assert(recorder.is_status(status@));
    IpcResponse::from_command_result(result, &status)
}

/// The response for a request whose command ended with `result`.
pub fn finish_request<S, C, N, Cl>(
    recorder: &Recorder<S, C, N, Cl>,
    req: &IpcRequest,
    result: CommandResult,
) -> (r: HandleOutcome) where S: CommandSpawner, C: Clock, N: Notifier, Cl: Clipboard
    ensures
        answers(r.response@, request_result(req@.cmd, result@), *recorder),
        r.want_shutdown == (req@.cmd == IpcCommand::Shutdown),
{
    if req.cmd == IpcCommand::Shutdown {
        let result = shutdown_result(result);
        HandleOutcome { response: respond(recorder, &result), want_shutdown: true }
    } else {
        HandleOutcome { response: respond(recorder, &result), want_shutdown: false }
    }
}

/// The response to a request for the audio inventory, with what was found.
pub open spec fn audio_answer(
    found: Result<crate::audio::InventoryView, AudioErrorView>,
    s: StatusView,
) -> ResponseView {
    match found {
        Ok(inv) => ResponseView {
            audio_list: Some(inv),
            ..ResponseView::of(ResultView::done("audio inventory"@), s)
        },
        Err(AudioErrorView::PactlMissing) => ResponseView::of(
            ResultView::failed(MachineCode::DepMissing, AudioErrorView::PactlMissing.text()),
            s,
        ),
        Err(e) => ResponseView::of(ResultView::failed(MachineCode::IoError, e.text()), s),
    }
}

/// The response to a request for the audio inventory, with what was found and the
/// recorder's status.
pub fn audio_list_response<S, C, N, Cl>(
    recorder: &Recorder<S, C, N, Cl>,
    found: Result<AudioInventory, AudioError>,
) -> (r: IpcResponse) where S: CommandSpawner, C: Clock, N: Notifier, Cl: Clipboard
    ensures
        exists|s: StatusView|
            #[trigger] recorder.is_status(s) && r@ == audio_answer(
                match found {
                    Ok(inv) => Ok(inv@),
                    Err(e) => Err(e@),
                },
                s,
            ),
{
    let status = recorder.status();
    assert(recorder.is_status(status@));
    match found {
        Ok(inv) => IpcResponse::audio_list(inv, &status),
        Err(AudioError::PactlMissing) => IpcResponse::err(
            MachineCode::DepMissing,
            AudioError::PactlMissing.to_text().as_str(),
            &status,
        ),
        Err(e) => IpcResponse::err(MachineCode::IoError, e.to_text().as_str(), &status),
    }
}

/// The status that a response holds.
pub fn status_json_from_response(resp: &IpcResponse) -> (r: &IpcStatus)
    ensures
        r@ == resp@.status,
{
    &resp.status
}

// ---------------------------------------------------------------------------
// The session of a server
// ---------------------------------------------------------------------------

/// What was read from a client.
#[derive(Debug)]
pub enum RequestRead {
    /// The client closed the connection.
    Eof,
    /// The line is over the limit.
    TooLong(String),
    /// A line without anything on it.
    Blank,
    /// A line that is no request, and why.
    Malformed(String),
    Request(IpcRequest),
}

/// What to do with what was read.
#[derive(Debug)]
pub enum Received {
    /// Close the connection.
    Close,
    /// Read on.
    Again,
    /// Send the response and close the connection.
    Refuse(IpcResponse),
    /// Carry out the request; the flag says whether the connection counts as a GUI.
    Proceed { counted: bool },
}

/// How a connection goes on after its request.
#[derive(Debug, Clone, Copy, PartialEq, Eq, Structural)]
pub enum ConnAction {
    /// It ends.
    Done { want_shutdown: bool },
    /// It waits for the region to be selected.
    Deferred,
    /// It stays open as a GUI.
    HoldGui,
}

/// Whom to answer once a request's command is over.
#[derive(Debug)]
pub struct Answer {
    /// For the client that made the request.
    pub response: IpcResponse,
    /// For the client that waits for a region, which is over too.
    pub pending: Option<IpcResponse>,
    pub action: ConnAction,
}

/// The recorder and what the server keeps beside it.
pub struct SessionState<S, C, N, Cl> where
    S: CommandSpawner,
    C: Clock,
    N: Notifier,
    Cl: Clipboard,
 {
    recorder: Recorder<S, C, N, Cl>,
    gui_clients: u32,
    shutdown: bool,
    ever_served: bool,
    pending_region: bool,
}

/// What a [`SessionState`] says.
#[verifier::ext_equal]
pub struct ServerView {
    pub rec: RecView,
    /// Connected GUI views.
    pub gui_clients: u32,
    /// The server is to end.
    pub shutdown: bool,
    /// A request was read.
    pub ever_served: bool,
    /// A client waits for a region to be selected.
    pub pending_region: bool,
}

impl ServerView {
    /// Whether an unused server ends by itself: it has served, nobody looks on,
    /// and nothing is under way.
    pub open spec fn idle_exit(self, enabled: bool) -> bool {
        enabled && self.ever_served && self.gui_clients == 0 && self.rec.state == State::Idle
            && !self.pending_region && !self.shutdown
    }
}

/// `n` less `k`, not below zero.
pub open spec fn less(n: u32, k: u32) -> u32 {
    if k <= n {
        (n - k) as u32
    } else {
        0
    }
}

/// Whether a request marks its connection as a GUI.
pub open spec fn marks_gui(req: RequestView) -> bool {
    req.cmd == IpcCommand::Subscribe || req.gui == Some(true)
}

impl<S, C, N, Cl> View for SessionState<S, C, N, Cl> where
    S: CommandSpawner,
    C: Clock,
    N: Notifier,
    Cl: Clipboard,
 {
    type V = ServerView;

    closed spec fn view(&self) -> ServerView {
        ServerView {
            rec: self.recorder@,
            gui_clients: self.gui_clients,
            shutdown: self.shutdown,
            ever_served: self.ever_served,
            pending_region: self.pending_region,
        }
    }
}

impl<S, C, N, Cl> SessionState<S, C, N, Cl> where
    S: CommandSpawner,
    C: Clock,
    N: Notifier,
    Cl: Clipboard,
 {
    /// The port calls made so far.
    pub closed spec fn calls(&self) -> Seq<PortCall> {
        self.recorder.calls()
    }

    /// A server that has served nobody.
    pub fn new(recorder: Recorder<S, C, N, Cl>) -> (r: Self)
        ensures
            r@ == (ServerView {
                rec: recorder@,
                gui_clients: 0,
                shutdown: false,
                ever_served: false,
                pending_region: false,
            }),
            r.rec() == recorder,
            r.calls() == recorder.calls(),
    {
        SessionState {
            recorder,
            gui_clients: 0,
            shutdown: false,
            ever_served: false,
            pending_region: false,
        }
    }

    /// The recorder.
    pub closed spec fn rec(&self) -> Recorder<S, C, N, Cl> {
        self.recorder
    }

    /// What the server says of its session and of the port calls is what its
    /// recorder says.
    pub proof fn recorder_is_viewed(&self)
        ensures
            self@.rec == self.rec()@,
            self.calls() == self.rec().calls(),
    {
    }

    /// The recorder.
    pub fn recorder(&self) -> (r: &Recorder<S, C, N, Cl>)
        ensures
            *r == self.rec(),
            r@ == self@.rec,
    {
        &self.recorder
    }

    /// The recorder, to hand it what it asked for.
    pub fn recorder_mut(&mut self) -> (r: &mut Recorder<S, C, N, Cl>)
        ensures
            *r == old(self).rec(),
            r@ == old(self)@.rec,
            final(self)@ == (ServerView { rec: final(r)@, ..old(self)@ }),
            final(self).rec() == *final(r),
            final(self).calls() == final(r).calls(),
    {
        &mut self.recorder
    }

    /// Whether the server is to end.
    pub fn wants_shutdown(&self) -> (r: bool)
        ensures
            r == self@.shutdown,
    {
        self.shutdown
    }

    /// How many GUI views are connected.
    pub fn gui_clients(&self) -> (r: u32)
        ensures
            r == self@.gui_clients,
    {
        self.gui_clients
    }

    /// Whether a client waits for a region to be selected.
    pub fn has_pending_region(&self) -> (r: bool)
        ensures
            r == self@.pending_region,
    {
        self.pending_region
    }

    /// Whether an unused server ends by itself now.
    pub fn should_idle_exit(&self, idle_exit: bool) -> (r: bool)
        ensures
            r == self@.idle_exit(idle_exit),
    {
        idle_exit && self.ever_served && self.gui_clients == 0 && !self.recorder.state().is_busy()
            && !self.pending_region && !self.shutdown
    }

    /// `dropped` GUI views have disconnected.
    pub fn gui_views_dropped(&mut self, dropped: u32)
        ensures
            final(self)@ == (ServerView {
                gui_clients: less(old(self)@.gui_clients, dropped),
                ..old(self)@
            }),
            final(self).rec() == old(self).rec(),
            final(self).calls() == old(self).calls(),
    {
        self.gui_clients = self.gui_clients.saturating_sub(dropped);
    }

    /// Something was read from a connection; `counted` says whether the
    /// connection already counts as a GUI.
    pub fn receive(&mut self, counted: bool, input: &RequestRead) -> (r: Received)
        ensures
            final(self).rec() == old(self).rec(),
            final(self).calls() == old(self).calls(),
            final(self)@.rec == old(self)@.rec,
            final(self)@.shutdown == old(self)@.shutdown,
            final(self)@.pending_region == old(self)@.pending_region,
            final(self)@.ever_served == (old(self)@.ever_served || !(input is Eof
                || input is Blank)),
            match input {
                RequestRead::Eof => r is Close && final(self)@.gui_clients
                    == old(self)@.gui_clients,
                RequestRead::Blank => r is Again && final(self)@.gui_clients
                    == old(self)@.gui_clients,
                RequestRead::TooLong(m) => r is Refuse && final(self)@.gui_clients
                    == old(self)@.gui_clients && answers(
                    r->Refuse_0@,
                    ResultView::failed(MachineCode::Invalid, m@),
                    old(self).rec(),
                ),
                RequestRead::Malformed(e) => r is Refuse && final(self)@.gui_clients
                    == old(self)@.gui_clients && answers(
                    r->Refuse_0@,
                    ResultView::failed(MachineCode::Invalid, "invalid request: "@ + e@),
                    old(self).rec(),
                ),
                RequestRead::Request(req) => {
                    &&& r is Proceed
                    &&& r->counted == (counted || marks_gui(req@))
                    &&& final(self)@.gui_clients == (if !counted && marks_gui(req@)
                        && old(self)@.gui_clients < u32::MAX {
                        (old(self)@.gui_clients + 1) as u32
                    } else {
                        old(self)@.gui_clients
                    })
                },
            },
    {
        match input {
            RequestRead::Eof => Received::Close,
            RequestRead::Blank => Received::Again,
            RequestRead::TooLong(m) => {
                self.ever_served = true;
                let result = CommandResult::err(MachineCode::Invalid, m.as_str());
                Received::Refuse(respond(&self.recorder, &result))
            },
            RequestRead::Malformed(e) => {
                self.ever_served = true;
                let result = CommandResult::err(
                    MachineCode::Invalid,
                    concat2("invalid request: ", e.as_str()).as_str(),
                );
                Received::Refuse(respond(&self.recorder, &result))
            },
            RequestRead::Request(req) => {
                self.ever_served = true;
                let gui = match req.gui {
                    Some(g) => g,
                    None => false,
                };
                let marks = req.cmd == IpcCommand::Subscribe || gui;
                if !counted && marks {
                    self.gui_clients = self.gui_clients.saturating_add(1);
                }
                Received::Proceed { counted: counted || marks }
            },
        }
    }

    /// Begin to carry out a request. A region is selected in the background,
    /// with the client waiting.
    pub fn dispatch(&mut self, req: &IpcRequest, outputs: &Vec<OutputInfo>) -> (r: Work)
        requires
            old(self)@.rec.wf(),
        ensures
            final(self)@.rec.wf(),
            grown(final(self).calls(), old(self).calls()),
            final(self).rec().keeps_ports(old(self).rec()),
            final(self)@ == (ServerView { rec: final(self)@.rec, ..old(self)@ }),
            dispatch_run(
                old(self)@,
                req@,
                output_views(outputs@),
                added(final(self).calls(), old(self).calls()),
                final(self)@.rec,
                r@,
            ),
    {
        let starts = req.cmd == IpcCommand::StartRegion || (req.cmd == IpcCommand::ToggleRegion
            && self.recorder.state() == State::Idle);
        if starts {
            let audio = Some(effective_audio(&self.recorder, req));
            match self.recorder.begin_region(audio, self.gui_clients == 0) {
                Ok(_) => Work::Park,
                Err(e) => Work::Recorder(Step::Done(e)),
            }
        } else {
            handle_request(&mut self.recorder, req, self.gui_clients, outputs)
        }
    }

    /// A request's command is over: whom to answer, and how the connection goes
    /// on. `was_busy` says whether a session was under way when the request came.
    pub fn conclude(&mut self, req: &IpcRequest, was_busy: bool, result: CommandResult) -> (r: Answer)
        ensures
            final(self).rec() == old(self).rec(),
            final(self).calls() == old(self).calls(),
            final(self)@ == (ServerView {
                pending_region: old(self)@.pending_region && !ends_pending(req@.cmd, was_busy),
                shutdown: old(self)@.shutdown || req@.cmd == IpcCommand::Shutdown,
                ..old(self)@
            }),
            answers(r.response@, request_result(req@.cmd, result@), old(self).rec()),
            match r.pending {
                Some(p) => old(self)@.pending_region && ends_pending(req@.cmd, was_busy)
                    && answers(p@, request_result(req@.cmd, result@), old(self).rec()),
                None => !(old(self)@.pending_region && ends_pending(req@.cmd, was_busy)),
            },
            r.action == (match req@.cmd {
                IpcCommand::Subscribe => ConnAction::HoldGui,
                IpcCommand::Shutdown => ConnAction::Done { want_shutdown: true },
                _ => ConnAction::Done { want_shutdown: false },
            }),
    {
        let over = match req.cmd {
            IpcCommand::Stop => true,
            IpcCommand::Shutdown => true,
            IpcCommand::ToggleRegion => was_busy,
            _ => false,
        };
        let result = if req.cmd == IpcCommand::Shutdown {
            shutdown_result(result)
        } else {
            result
        };
        let pending = if over && self.pending_region {
            self.pending_region = false;
            Some(respond(&self.recorder, &result))
        } else {
            None
        };
        let response = respond(&self.recorder, &result);
        let action = match req.cmd {
            IpcCommand::Subscribe => ConnAction::HoldGui,
            IpcCommand::Shutdown => ConnAction::Done { want_shutdown: true },
            _ => ConnAction::Done { want_shutdown: false },
        };
        if req.cmd == IpcCommand::Shutdown {
            self.shutdown = true;
        }
        Answer { response, pending, action }
    }

    /// A client begins to wait for a region; a client that waited before it is
    /// told that it was superseded.
    pub fn park(&mut self) -> (r: Option<IpcResponse>)
        ensures
            final(self).rec() == old(self).rec(),
            final(self).calls() == old(self).calls(),
            final(self)@ == (ServerView { pending_region: true, ..old(self)@ }),
            match r {
                Some(p) => old(self)@.pending_region && answers(
                    p@,
                    ResultView::failed(MachineCode::Busy, "superseded region selection"@),
                    old(self).rec(),
                ),
                None => !old(self)@.pending_region,
            },
    {
        let superseded = if self.pending_region {
            let result = CommandResult::err(MachineCode::Busy, "superseded region selection");
            Some(respond(&self.recorder, &result))
        } else {
            None
        };
        self.pending_region = true;
        superseded
    }

    /// The client that waits for a region has hung up: the selection is given up.
    pub fn pending_hung_up(&mut self) -> (r: Option<Step>)
        requires
            old(self)@.rec.wf(),
        ensures
            final(self)@.rec.wf(),
            grown(final(self).calls(), old(self).calls()),
            final(self).rec().keeps_ports(old(self).rec()),
            final(self)@ == (ServerView {
                rec: final(self)@.rec,
                pending_region: false,
                ..old(self)@
            }),
            if old(self)@.pending_region && old(self)@.rec.state != State::Idle {
                r is Some && stop_run(
                    old(self)@.rec,
                    added(final(self).calls(), old(self).calls()),
                    final(self)@.rec,
                    r->0@,
                )
            } else {
                r is None && final(self).rec() == old(self).rec() && final(self)@.rec
                    == old(self)@.rec && final(self).calls() == old(self).calls()
            },
    {
        proof {
            lemma_added(self.calls(), self.calls(), Seq::empty());
        }
        let waiting = self.pending_region;
        self.pending_region = false;
        if waiting && self.recorder.state().is_busy() {
            Some(self.recorder.stop())
        } else {
            None
        }
    }

    /// Look how the session gets on.
    pub fn poll(&mut self) -> (r: Option<Step>)
        requires
            old(self)@.rec.wf(),
        ensures
            final(self)@.rec.wf(),
            grown(final(self).calls(), old(self).calls()),
            final(self).rec().keeps_ports(old(self).rec()),
            final(self)@ == (ServerView { rec: final(self)@.rec, ..old(self)@ }),
            poll_run(
                old(self)@.rec,
                added(final(self).calls(), old(self).calls()),
                final(self)@.rec,
                opt_step(r),
            ),
    {
        self.recorder.poll()
    }

    /// What was looked at is over: the client that waits for a region is answered.
    pub fn poll_over(&mut self, result: &CommandResult) -> (r: Option<IpcResponse>)
        ensures
            final(self).rec() == old(self).rec(),
            final(self).calls() == old(self).calls(),
            final(self)@ == (ServerView { pending_region: false, ..old(self)@ }),
            match r {
                Some(p) => old(self)@.pending_region && answers(p@, result@, old(self).rec()),
                None => !old(self)@.pending_region,
            },
    {
        if self.pending_region {
            self.pending_region = false;
            Some(respond(&self.recorder, result))
        } else {
            None
        }
    }
}

/// Whether a command that is over also ends the wait for a region.
pub open spec fn ends_pending(cmd: IpcCommand, was_busy: bool) -> bool {
    match cmd {
        IpcCommand::Stop => true,
        IpcCommand::Shutdown => true,
        IpcCommand::ToggleRegion => was_busy,
        _ => false,
    }
}

/// How a request is carried out by the server: a region is selected in the
/// background.
pub open spec fn dispatch_run(
    pre: ServerView,
    req: RequestView,
    outputs: Seq<OutputView>,
    calls: Seq<PortCall>,
    post: RecView,
    out: WorkView,
) -> bool {
    let audio = Some(request_audio(req, pre.rec));
    if req.cmd == IpcCommand::StartRegion || (req.cmd == IpcCommand::ToggleRegion && pre.rec.state
        == State::Idle) {
        match out {
            WorkView::Park => begin_run(pre.rec, audio, pre.gui_clients == 0, calls, post, Ok(())),
            WorkView::Recorder(StepView::Done(e)) => begin_run(
                pre.rec,
                audio,
                pre.gui_clients == 0,
                calls,
                post,
                Err(e),
            ),
            _ => false,
        }
    } else {
        request_run(pre.rec, req, pre.gui_clients, outputs, calls, post, out)
    }
}

} // verus!
