//! The state of a GUI view: what it knows of the session, what it has asked for,
//! and what it shows.

use vstd::prelude::*;
use vstd::string::*;

use crate::audio::{AudioPlan, PlanView, SystemAudioMode};
use crate::ipc::{IpcResponse, IpcStatus, IpcStatusView, ResponseView};
use crate::picker::{ipc_fps_for_start, rate_number, BothEnablement, PickerState, PickerView};
use crate::text::{
    borrow_opt, clone_opt, concat2, concat3, concat4, contains_ignore_ascii_case, decimal,
    has_ignoring_case, join, joined, opt_str_view, opt_view, own_opt, padded, split_char, split_of,
    str_eq, views, zero_padded,
};
use crate::worker::{CmdView, WorkerCmd};

verus! {

/// The least time between two looks at the monitors while the session stays
/// idle, in milliseconds.
pub const BOTH_REVALIDATE_IDLE_MIN_MS: u64 = 10_000;

// ---------------------------------------------------------------------------
// What is shown
// ---------------------------------------------------------------------------

/// Whether a status that says idle calls for a new look at the monitors: on the
/// first one, on the way from busy to idle, and when the last look is long ago.
pub fn should_revalidate_both_on_idle(
    prev_state: Option<&str>,
    elapsed_since_last_ms: Option<u64>,
    min_interval_ms: u64,
) -> (r: bool)
    ensures
        r == is_look_due(opt_str_view(prev_state), elapsed_since_last_ms, min_interval_ms),
{
    let entering = match prev_state {
        Some(s) => !str_eq(s, "Idle"),
        None => true,
    };
    let stale = match elapsed_since_last_ms {
        Some(e) => e >= min_interval_ms,
        None => true,
    };
    entering || stale
}

/// A new look at the monitors is due.
pub open spec fn is_look_due(
    prev_state: Option<Seq<char>>,
    elapsed: Option<u64>,
    min_interval: u64,
) -> bool {
    prev_state != Some("Idle"@) || elapsed is None || elapsed->0 >= min_interval
}

/// Whether the timer goes on: only while recording, and not once a stop was asked
/// for.
pub fn timer_should_tick(state: &str, stop_in_flight: bool) -> (r: bool)
    ensures
        r == (state@ == "Recording"@ && !stop_in_flight),
{
    str_eq(state, "Recording") && !stop_in_flight
}

/// The milliseconds since the start: by the clock where the start is known, else
/// as the session says.
pub open spec fn elapsed_of(s: IpcStatusView, now_ms: u64) -> int {
    match s.started_at_unix {
        Some(start) => if start * 1000 <= now_ms {
            now_ms - start * 1000
        } else {
            0
        },
        None => match s.elapsed_ms {
            Some(ms) => ms as int,
            None => 0,
        },
    }
}

/// Minutes and seconds, two digits each at least.
pub open spec fn clock_text(ms: int) -> Seq<char> {
    zero_padded(decimal((ms / 1000 / 60) as nat), 2) + ":"@ + zero_padded(
        decimal((ms / 1000 % 60) as nat),
        2,
    )
}

/// The time that the timer shows, given the clock in milliseconds.
pub fn format_elapsed(st: &IpcStatus, now_ms: u64) -> (r: String)
    ensures
        r@ == clock_text(elapsed_of(st@, now_ms)),
{
    let ms: u64 = match st.started_at_unix {
        Some(start) => {
            let start: u64 = start;
            if start <= u64::MAX / 1000 && start * 1000 <= now_ms {
                now_ms - start * 1000
            } else {
                0
            }
        },
        None => match st.elapsed_ms {
            Some(ms) => ms,
            None => 0,
        },
    };
    let total: u64 = ms / 1000;
    concat3(padded(total / 60, 2).as_str(), ":", padded(total % 60, 2).as_str())
}

/// The line for what is being captured.
pub open spec fn capture_line(s: IpcStatusView) -> Option<Seq<char>> {
    match s.capture_output {
        Some(o) => if s.capture_mode == Some("both"@) {
            Some("2 monitors: "@ + joined(split_of(o, '+'), " + "@))
        } else {
            Some("Output: "@ + o)
        },
        None => None,
    }
}

fn is_both_capture(s: &IpcStatus) -> (r: bool)
    ensures
        r == (s@.capture_mode == Some("both"@)),
{
    match &s.capture_mode {
        Some(m) => str_eq(m.as_str(), "both"),
        None => false,
    }
}

/// The line for what is being captured.
pub fn format_capture_message(status: &IpcStatus) -> (r: Option<String>)
    ensures
        opt_view(r) == capture_line(status@),
{
    match &status.capture_output {
        Some(o) => if is_both_capture(status) {
            let parts = split_char(o.as_str(), '+');
            Some(concat2("2 monitors: ", join(&parts, " + ").as_str()))
        } else {
            Some(concat2("Output: ", o.as_str()))
        },
        None => None,
    }
}

/// The line while a stop is under way.
pub open spec fn stopping_line(s: IpcStatusView, stopping_both: bool) -> Seq<char> {
    if stopping_both || s.capture_mode == Some("both"@) {
        "Stopping… Composing…"@
    } else {
        "Stopping…"@
    }
}

/// The line while a stop is under way: two monitors are composed then.
pub fn format_stopping_message(status: &IpcStatus, stopping_both: bool) -> (r: String)
    ensures
        r@ == stopping_line(status@, stopping_both),
{
    if stopping_both || is_both_capture(status) {
        "Stopping… Composing…".to_owned()
    } else {
        "Stopping…".to_owned()
    }
}

/// The line that a status asks for: a given message, else that a stop is under
/// way, else what is captured; nothing leaves the line as it is.
pub open spec fn message_line(
    message: Option<Seq<char>>,
    s: IpcStatusView,
    stop_in_flight: bool,
    stopping_both: bool,
) -> Option<Seq<char>> {
    if message is Some {
        message
    } else if s.state == "Stopping"@ || stop_in_flight {
        Some(stopping_line(s, stopping_both))
    } else if s.state == "Recording"@ || s.state == "Starting"@ {
        capture_line(s)
    } else {
        None
    }
}

/// The line that a status asks for.
pub fn status_message_line(
    message: Option<&str>,
    status: &IpcStatus,
    stop_in_flight: bool,
    stopping_both: bool,
) -> (r: Option<String>)
    ensures
        opt_view(r) == message_line(
            opt_str_view(message),
            status@,
            stop_in_flight,
            stopping_both,
        ),
{
    if let Some(m) = message {
        return Some(m.to_owned());
    }
    if str_eq(status.state.as_str(), "Stopping") || stop_in_flight {
        return Some(format_stopping_message(status, stopping_both));
    }
    if str_eq(status.state.as_str(), "Recording") || str_eq(status.state.as_str(), "Starting") {
        return format_capture_message(status);
    }
    None
}

/// What a view asked the session to do.
#[derive(Debug, Clone, Copy, PartialEq, Eq, Structural)]
pub enum OpKind {
    Start,
    Stop,
}

/// The line for a response.
pub open spec fn op_line(kind: OpKind, resp: ResponseView) -> Seq<char> {
    if !resp.ok {
        if resp.message.len() > 0 {
            resp.message
        } else {
            "Error ("@ + resp.code + ")"@
        }
    } else {
        match kind {
            OpKind::Start => if resp.code == "slurp_cancel"@ {
                "Region selection canceled"@
            } else if resp.status.state != "Recording"@ {
                resp.message
            } else {
                match capture_line(resp.status) {
                    Some(line) => line,
                    None => if has_ignoring_case(resp.message, "recording"@) {
                        resp.message
                    } else {
                        "Recording…"@
                    },
                }
            },
            OpKind::Stop => match resp.status.last_success_path {
                Some(p) => if resp.warnings.len() == 0 {
                    "Saved — path ready: "@ + p
                } else {
                    "Saved: "@ + p
                },
                None => if resp.message.len() > 0 {
                    resp.message
                } else {
                    "Stopped"@
                },
            },
        }
    }
}

/// The line for a response.
pub fn format_op_message(kind: OpKind, resp: &IpcResponse) -> (r: String)
    ensures
        r@ == op_line(kind, resp@),
{
    if !resp.ok {
        if !resp.message.as_str().is_empty() {
            return resp.message.clone();
        }
        return concat3("Error (", resp.code.as_str(), ")");
    }
    match kind {
        OpKind::Start => {
            if str_eq(resp.code.as_str(), "slurp_cancel") {
                return "Region selection canceled".to_owned();
            }
            if !str_eq(resp.status.state.as_str(), "Recording") {
                return resp.message.clone();
            }
            match format_capture_message(&resp.status) {
                Some(line) => line,
                None => if contains_ignore_ascii_case(resp.message.as_str(), "recording") {
                    resp.message.clone()
                } else {
                    "Recording…".to_owned()
                },
            }
        },
        OpKind::Stop => match &resp.status.last_success_path {
            Some(p) => if resp.warnings.len() == 0 {
                concat2("Saved — path ready: ", p.as_str())
            } else {
                concat2("Saved: ", p.as_str())
            },
            None => if !resp.message.as_str().is_empty() {
                resp.message.clone()
            } else {
                "Stopped".to_owned()
            },
        },
    }
}

/// A line with warnings behind it.
pub open spec fn warned_line(line: Seq<char>, warnings: Seq<Seq<char>>) -> Seq<char> {
    if warnings.len() == 0 {
        line
    } else if line.len() == 0 {
        "warning: "@ + joined(warnings, "; "@)
    } else {
        line + "  (warning: "@ + joined(warnings, "; "@) + ")"@
    }
}

/// A line with warnings behind it.
pub fn append_warnings(line: String, warnings: &Vec<String>) -> (r: String)
    ensures
        r@ == warned_line(line@, views(warnings@)),
{
    if warnings.len() == 0 {
        return line;
    }
    let all = join(warnings, "; ");
    if line.as_str().is_empty() {
        concat2("warning: ", all.as_str())
    } else {
        concat4(line.as_str(), "  (warning: ", all.as_str(), ")")
    }
}

/// What is said of the answer to a request for the audio devices.
pub fn audio_list_message(resp: &IpcResponse) -> (r: Option<String>)
    ensures
        opt_view(r) == (if resp@.audio_list is None && !resp@.ok {
            Some("Audio devices: "@ + resp@.message)
        } else {
            None
        }),
{
    if resp.audio_list.is_none() && !resp.ok {
        Some(concat2("Audio devices: ", resp.message.as_str()))
    } else {
        None
    }
}

// ---------------------------------------------------------------------------
// The state of a view
// ---------------------------------------------------------------------------

/// The state of a view.
pub struct ViewState {
    /// The last status that the session gave.
    pub last_status: Option<IpcStatus>,
    /// The last file that was saved.
    pub last_path: Option<String>,
    /// A start was asked for and not answered yet.
    pub start_in_flight: bool,
    /// A stop was asked for and not answered yet.
    pub stop_in_flight: bool,
    /// The stop is for two monitors, which are composed.
    pub stopping_both: bool,
    /// The number of the start that counts; answers to others are late.
    pub start_epoch: u64,
    /// The session's audio was seen since the view was attached.
    pub audio_from_server: bool,
    /// When the monitors were last looked at, in milliseconds.
    pub last_both_revalidate: Option<u64>,
    /// The last number given to a start.
    pub epochs: u64,
}

/// What a [`ViewState`] says.
#[verifier::ext_equal]
pub struct ViewModel {
    pub last_status: Option<IpcStatusView>,
    pub last_path: Option<Seq<char>>,
    pub start_in_flight: bool,
    pub stop_in_flight: bool,
    pub stopping_both: bool,
    pub start_epoch: u64,
    pub audio_from_server: bool,
    pub last_both_revalidate: Option<u64>,
    pub epochs: u64,
}

/// What an optional status says.
pub open spec fn opt_status(o: Option<IpcStatus>) -> Option<IpcStatusView> {
    match o {
        Some(s) => Some(s@),
        None => None,
    }
}

impl View for ViewState {
    type V = ViewModel;

    open spec fn view(&self) -> ViewModel {
        ViewModel {
            last_status: opt_status(self.last_status),
            last_path: opt_view(self.last_path),
            start_in_flight: self.start_in_flight,
            stop_in_flight: self.stop_in_flight,
            stopping_both: self.stopping_both,
            start_epoch: self.start_epoch,
            audio_from_server: self.audio_from_server,
            last_both_revalidate: self.last_both_revalidate,
            epochs: self.epochs,
        }
    }
}

/// What a click on the main button does.
#[derive(Debug, Clone, Copy, PartialEq, Eq, Structural)]
pub enum Click {
    Nothing,
    Stop { was_both: bool },
    Start,
}

/// How the main button looks.
#[derive(Debug, Clone, Copy, PartialEq, Eq, Structural)]
pub struct PrimaryButton {
    /// It says "Stop", else "Record".
    pub stop: bool,
    pub sensitive: bool,
}

/// Which controls can be used.
#[derive(Debug, Clone, Copy, PartialEq, Eq, Structural)]
pub struct Chrome {
    /// The choice of a region or of one monitor.
    pub modes: bool,
    /// The choice of two monitors.
    pub both: bool,
    /// The monitor and the rate.
    pub pickers: bool,
    pub system_mode: bool,
    pub system_detail: bool,
    pub mic: bool,
    pub mic_device: bool,
}

/// Two clocks, in milliseconds: the time of day since the epoch, and one that
/// never goes back.
#[derive(Debug, Clone, Copy, PartialEq, Eq, Structural)]
pub struct Moment {
    pub wall_ms: u64,
    pub steady_ms: u64,
}

/// What a status changes on the screen.
#[derive(Debug, PartialEq, Eq)]
pub struct Shown {
    pub state_line: String,
    /// The timer, unless it stays as it is.
    pub timer: Option<String>,
    /// The last file, if there is one.
    pub path_line: Option<String>,
    /// The message, unless it stays as it is.
    pub message: Option<String>,
    /// Nothing is going on.
    pub idle: bool,
    /// The monitors have to be looked at anew.
    pub revalidate: bool,
}

/// What a [`Shown`] says.
#[verifier::ext_equal]
pub struct ShownView {
    pub state_line: Seq<char>,
    pub timer: Option<Seq<char>>,
    pub path_line: Option<Seq<char>>,
    pub message: Option<Seq<char>>,
    pub idle: bool,
    pub revalidate: bool,
}

impl View for Shown {
    type V = ShownView;

    open spec fn view(&self) -> ShownView {
        ShownView {
            state_line: self.state_line@,
            timer: opt_view(self.timer),
            path_line: opt_view(self.path_line),
            message: opt_view(self.message),
            idle: self.idle,
            revalidate: self.revalidate,
        }
    }
}

impl ViewModel {
    /// The state that is known; idle at first.
    pub open spec fn state(self) -> Seq<char> {
        match self.last_status {
            Some(s) => s.state,
            None => "Idle"@,
        }
    }

    /// Nothing is going on and nothing was asked for.
    pub open spec fn is_quiet(self) -> bool {
        self.state() == "Idle"@ && !self.start_in_flight && !self.stop_in_flight
    }

    /// The session is busy, or was asked to start.
    pub open spec fn is_busy(self) -> bool {
        self.state() != "Idle"@ || self.start_in_flight
    }

    /// Two monitors are being recorded, or were asked for.
    pub open spec fn is_both(self, both_mode: bool) -> bool {
        (self.last_status is Some && self.last_status->0.capture_mode == Some("both"@)) || (
        self.start_in_flight && both_mode)
    }

    /// The view after a status.
    pub open spec fn with_status(self, s: IpcStatusView) -> ViewModel {
        ViewModel {
            last_status: Some(s),
            last_path: if s.last_success_path is Some {
                s.last_success_path
            } else {
                self.last_path
            },
            audio_from_server: true,
            ..self
        }
    }

    /// What a status changes on the screen.
    pub open spec fn shown(
        self,
        s: IpcStatusView,
        message: Option<Seq<char>>,
        at: Moment,
    ) -> ShownView {
        let next = self.with_status(s);
        ShownView {
            state_line: "State: "@ + s.state,
            timer: if s.state == "Recording"@ && !self.stop_in_flight {
                Some(clock_text(elapsed_of(s, at.wall_ms)))
            } else if s.state == "Idle"@ || s.state == "SelectingRegion"@ {
                Some("00:00"@)
            } else {
                None
            },
            path_line: match next.last_path {
                Some(p) => Some("Last file: "@ + p),
                None => None,
            },
            message: message_line(message, s, self.stop_in_flight, self.stopping_both),
            idle: next.is_quiet(),
            revalidate: next.is_quiet() && is_look_due(
                match self.last_status {
                    Some(p) => Some(p.state),
                    None => None,
                },
                self.since_look(at),
                BOTH_REVALIDATE_IDLE_MIN_MS,
            ),
        }
    }

    /// How long ago the monitors were looked at.
    pub open spec fn since_look(self, at: Moment) -> Option<u64> {
        match self.last_both_revalidate {
            Some(t) => if at.steady_ms >= t {
                Some((at.steady_ms - t) as u64)
            } else {
                Some(0u64)
            },
            None => None,
        }
    }

    /// The view after a status and the look at the monitors that it asked for.
    pub open spec fn after_status(self, s: IpcStatusView, at: Moment) -> ViewModel {
        let next = self.with_status(s);
        if self.shown(s, None, at).revalidate {
            ViewModel { last_both_revalidate: Some(at.steady_ms), ..next }
        } else {
            next
        }
    }
}

impl ViewState {
    /// A view that was just built; the monitors were looked at then.
    pub fn new(steady_ms: u64) -> (r: Self)
        ensures
            r@ == (ViewModel {
                last_status: None,
                last_path: None,
                start_in_flight: false,
                stop_in_flight: false,
                stopping_both: false,
                start_epoch: 0,
                audio_from_server: false,
                last_both_revalidate: Some(steady_ms),
                epochs: 1,
            }),
    {
        ViewState {
            last_status: None,
            last_path: None,
            start_in_flight: false,
            stop_in_flight: false,
            stopping_both: false,
            start_epoch: 0,
            audio_from_server: false,
            last_both_revalidate: Some(steady_ms),
            epochs: 1,
        }
    }

    fn state_is(&self, state: &str) -> (r: bool)
        ensures
            r == (self@.state() == state@),
    {
        match &self.last_status {
            Some(s) => str_eq(s.state.as_str(), state),
            None => str_eq("Idle", state),
        }
    }

    /// Nothing is going on and nothing was asked for.
    pub fn is_quiet(&self) -> (r: bool)
        ensures
            r == self@.is_quiet(),
    {
        self.state_is("Idle") && !self.start_in_flight && !self.stop_in_flight
    }

    /// The monitors were looked at.
    pub fn looked_at_monitors(&mut self, steady_ms: u64)
        ensures
            final(self)@ == (ViewModel { last_both_revalidate: Some(steady_ms), ..old(self)@ }),
    {
        self.last_both_revalidate = Some(steady_ms);
    }

    /// What a click on the main button does: while the session is busy it stops,
    /// once; else it starts.
    pub fn click(&self, both_mode: bool) -> (r: Click)
        ensures
            r == (if self@.is_busy() {
                if self@.stop_in_flight {
                    Click::Nothing
                } else {
                    Click::Stop { was_both: self@.is_both(both_mode) }
                }
            } else {
                Click::Start
            }),
    {
        if !self.state_is("Idle") || self.start_in_flight {
            if self.stop_in_flight {
                return Click::Nothing;
            }
            let both_now = match &self.last_status {
                Some(s) => is_both_capture(s),
                None => false,
            };
            return Click::Stop { was_both: both_now || (self.start_in_flight && both_mode) };
        }
        Click::Start
    }

    /// A stop was asked for. A start that is under way no longer counts.
    pub fn stop_sent(&mut self, was_both: bool) -> (r: &'static str)
        ensures
            r@ == (if was_both {
                "Stopping… Composing…"@
            } else {
                "Stopping…"@
            }),
            final(self)@ == old(self)@.stop_asked(was_both),
    {
        self.stop_in_flight = true;
        self.stopping_both = was_both;
        if self.start_in_flight {
            self.epochs = self.epochs.wrapping_add(1);
            self.start_epoch = self.epochs;
        }
        if was_both {
            "Stopping… Composing…"
        } else {
            "Stopping…"
        }
    }

    /// The command that starts what is chosen, with a new number: a region, else
    /// both monitors, else the selected one.
    pub fn start_command(
        &mut self,
        region: bool,
        both: bool,
        plan: AudioPlan,
        picker: &PickerState,
    ) -> (r: WorkerCmd)
        ensures
            final(self)@ == (ViewModel { epochs: old(self)@.next_epoch(), ..old(self)@ }),
            r@ == start_cmd(region, both, plan@, picker@, old(self)@.next_epoch()),
    {
        self.epochs = self.epochs.wrapping_add(1);
        let epoch: u64 = self.epochs;
        if region {
            WorkerCmd::StartRegion { plan, epoch }
        } else if both {
            WorkerCmd::StartBoth { plan, epoch }
        } else {
            WorkerCmd::StartFullscreen {
                plan,
                epoch,
                output: own_opt(picker.selected_output_name()),
                fps: ipc_fps_for_start(picker.selected_fps_value()),
            }
        }
    }

    /// The start with the given number was asked for.
    pub fn start_sent(&mut self, epoch: u64)
        ensures
            final(self)@ == (ViewModel {
                start_in_flight: true,
                start_epoch: epoch,
                ..old(self)@
            }),
    {
        self.start_in_flight = true;
        self.start_epoch = epoch;
    }

    /// How the main button looks.
    pub fn primary_button(&self) -> (r: PrimaryButton)
        ensures
            r == self@.button(),
    {
        let show_stop = self.start_in_flight || self.state_is("Recording") || self.state_is(
            "Starting",
        ) || self.state_is("SelectingRegion") || self.state_is("Stopping");
        if show_stop {
            PrimaryButton {
                stop: true,
                sensitive: !self.stop_in_flight && !self.state_is("Stopping"),
            }
        } else {
            PrimaryButton { stop: false, sensitive: !self.stop_in_flight }
        }
    }

    /// Take a status in, with a message of its own if there is one.
    pub fn apply_status(&mut self, status: IpcStatus, message: Option<&str>, at: Moment) -> (r: Shown)
        ensures
            final(self)@ == old(self)@.after_status(status@, at),
            r@ == old(self)@.shown(status@, opt_str_view(message), at),
    {
        let ghost before = self@;
        let elapsed = match self.last_both_revalidate {
            Some(t) => {
                let t: u64 = t;
                if at.steady_ms >= t {
                    Some(at.steady_ms - t)
                } else {
                    Some(0u64)
                }
            },
            None => None,
        };
        let due = match &self.last_status {
            Some(s) => should_revalidate_both_on_idle(
                Some(s.state.as_str()),
                elapsed,
                BOTH_REVALIDATE_IDLE_MIN_MS,
            ),
            None => should_revalidate_both_on_idle(None, elapsed, BOTH_REVALIDATE_IDLE_MIN_MS),
        };
        if status.last_success_path.is_some() {
            self.last_path = clone_opt(&status.last_success_path);
        }
        self.audio_from_server = true;
        let state_line = concat2("State: ", status.state.as_str());
        let timer = if timer_should_tick(status.state.as_str(), self.stop_in_flight) {
            Some(format_elapsed(&status, at.wall_ms))
        } else if str_eq(status.state.as_str(), "Idle") || str_eq(
            status.state.as_str(),
            "SelectingRegion",
        ) {
            Some("00:00".to_owned())
        } else {
            None
        };
        let path_line = match &self.last_path {
            Some(p) => Some(concat2("Last file: ", p.as_str())),
            None => None,
        };
        let line = status_message_line(message, &status, self.stop_in_flight, self.stopping_both);
        self.last_status = Some(status);
        assert(self@ == before.with_status(status@));
        let idle = self.is_quiet();
        let revalidate = idle && due;
        if revalidate {
            self.last_both_revalidate = Some(at.steady_ms);
        }
        Shown { state_line, timer, path_line, message: line, idle, revalidate }
    }

    /// Take a message in.
    pub fn apply_msg(&mut self, msg: UiMsg, at: Moment) -> (r: Effects)
        ensures
            final(self)@ == old(self)@.after_msg(msg@, at),
            r@ == old(self)@.effects(msg@, at),
    {
        match msg {
            UiMsg::Subscribed(status) => {
                self.audio_from_server = false;
                let note = clone_opt(&status.last_error);
                let shown = self.apply_status(status, borrow_opt(&note), at);
                Effects::of_status(shown)
            },
            UiMsg::Status(status) => {
                let died = !self.state_is("Idle") && str_eq(status.state.as_str(), "Idle");
                let note = if died {
                    clone_opt(&status.last_error)
                } else {
                    None
                };
                let shown = self.apply_status(status, borrow_opt(&note), at);
                Effects::of_status(shown)
            },
            UiMsg::Info(message) => Effects {
                present: false,
                close: false,
                shown: None,
                message: Some(message),
            },
            UiMsg::OpDone { kind, resp, epoch } => {
                match kind {
                    OpKind::Start => {
                        if epoch != self.start_epoch {
                            return Effects {
                                present: false,
                                close: false,
                                shown: None,
                                message: None,
                            };
                        }
                        self.start_in_flight = false;
                    },
                    OpKind::Stop => {
                        self.stop_in_flight = false;
                        self.stopping_both = false;
                        self.start_in_flight = false;
                    },
                }
                let note = format_op_message(kind, &resp);
                let line = append_warnings(note, &resp.warnings);
                let shown = self.apply_status(resp.status, Some(line.as_str()), at);
                Effects { present: true, close: false, shown: Some(shown), message: None }
            },
            UiMsg::Error { source, message, epoch } => {
                match source {
                    ErrorSource::Start => {
                        if epoch == self.start_epoch {
                            self.start_in_flight = false;
                        }
                    },
                    ErrorSource::Stop => {
                        self.stop_in_flight = false;
                        self.stopping_both = false;
                        self.start_in_flight = false;
                    },
                    ErrorSource::Status => {},
                }
                Effects {
                    present: source != ErrorSource::Status,
                    close: false,
                    shown: None,
                    message: Some(message),
                }
            },
            UiMsg::SubscribeFailed(e) => Effects {
                present: false,
                close: true,
                shown: None,
                message: Some(e),
            },
        }
    }
}

/// The command that starts what is chosen.
pub open spec fn start_cmd(
    region: bool,
    both: bool,
    plan: PlanView,
    picker: PickerView,
    epoch: u64,
) -> CmdView {
    if region {
        CmdView::StartRegion { plan, epoch }
    } else if both {
        CmdView::StartBoth { plan, epoch }
    } else {
        CmdView::StartFullscreen {
            plan,
            epoch,
            output: picker.output_name(),
            fps: Some(rate_number(picker.fps())),
        }
    }
}

/// Where an error comes from.
#[derive(Debug, Clone, Copy, PartialEq, Eq, Structural)]
pub enum ErrorSource {
    Start,
    Stop,
    Status,
}

/// What a view is told.
#[derive(Debug, PartialEq, Eq)]
pub enum UiMsg {
    Status(IpcStatus),
    /// An answer; for a start, with its number.
    OpDone { kind: OpKind, resp: IpcResponse, epoch: u64 },
    /// A failure; for a start, with its number.
    Error { source: ErrorSource, message: String, epoch: u64 },
    Info(String),
    /// The view is attached to the session.
    Subscribed(IpcStatus),
    /// The view cannot be attached.
    SubscribeFailed(String),
}

/// What a [`UiMsg`] says.
#[verifier::ext_equal]
pub enum MsgView {
    Status(IpcStatusView),
    OpDone { kind: OpKind, resp: ResponseView, epoch: u64 },
    Error { source: ErrorSource, message: Seq<char>, epoch: u64 },
    Info(Seq<char>),
    Subscribed(IpcStatusView),
    SubscribeFailed(Seq<char>),
}

impl View for UiMsg {
    type V = MsgView;

    open spec fn view(&self) -> MsgView {
        match self {
            UiMsg::Status(s) => MsgView::Status(s@),
            UiMsg::OpDone { kind, resp, epoch } => MsgView::OpDone {
                kind: *kind,
                resp: resp@,
                epoch: *epoch,
            },
            UiMsg::Error { source, message, epoch } => MsgView::Error {
                source: *source,
                message: message@,
                epoch: *epoch,
            },
            UiMsg::Info(m) => MsgView::Info(m@),
            UiMsg::Subscribed(s) => MsgView::Subscribed(s@),
            UiMsg::SubscribeFailed(e) => MsgView::SubscribeFailed(e@),
        }
    }
}

/// What a message makes the window do.
#[derive(Debug, PartialEq, Eq)]
pub struct Effects {
    /// Bring the window to the front.
    pub present: bool,
    /// Close the window; the recording goes on.
    pub close: bool,
    /// A status to show.
    pub shown: Option<Shown>,
    /// A message to show.
    pub message: Option<String>,
}

/// What [`Effects`] say.
#[verifier::ext_equal]
pub struct EffectsView {
    pub present: bool,
    pub close: bool,
    pub shown: Option<ShownView>,
    pub message: Option<Seq<char>>,
}

impl View for Effects {
    type V = EffectsView;

    open spec fn view(&self) -> EffectsView {
        EffectsView {
            present: self.present,
            close: self.close,
            shown: match self.shown {
                Some(s) => Some(s@),
                None => None,
            },
            message: opt_view(self.message),
        }
    }
}

impl Effects {
    fn of_status(shown: Shown) -> (r: Self)
        ensures
            r@ == (EffectsView { present: false, close: false, shown: Some(shown@), message: None }),
    {
        Effects { present: false, close: false, shown: Some(shown), message: None }
    }
}

impl ViewModel {
    /// The number of the next start.
    pub open spec fn next_epoch(self) -> u64 {
        if self.epochs == u64::MAX {
            0
        } else {
            (self.epochs + 1) as u64
        }
    }

    /// The view after a stop was asked for.
    pub open spec fn stop_asked(self, was_both: bool) -> ViewModel {
        let next = ViewModel { stop_in_flight: true, stopping_both: was_both, ..self };
        if self.start_in_flight {
            ViewModel { epochs: self.next_epoch(), start_epoch: self.next_epoch(), ..next }
        } else {
            next
        }
    }

    /// How the main button looks.
    pub open spec fn button(self) -> PrimaryButton {
        if self.start_in_flight || self.state() == "Recording"@ || self.state() == "Starting"@
            || self.state() == "SelectingRegion"@ || self.state() == "Stopping"@ {
            PrimaryButton {
                stop: true,
                sensitive: !self.stop_in_flight && self.state() != "Stopping"@,
            }
        } else {
            PrimaryButton { stop: false, sensitive: !self.stop_in_flight }
        }
    }

    /// The view once a start or a stop is over, before the status that came with
    /// the answer.
    pub open spec fn op_over(self, kind: OpKind) -> ViewModel {
        match kind {
            OpKind::Start => ViewModel { start_in_flight: false, ..self },
            OpKind::Stop => ViewModel {
                stop_in_flight: false,
                stopping_both: false,
                start_in_flight: false,
                ..self
            },
        }
    }

    /// The answer is to a start that no longer counts.
    pub open spec fn is_late(self, m: MsgView) -> bool {
        match m {
            MsgView::OpDone { kind, resp, epoch } => kind == OpKind::Start && epoch
                != self.start_epoch,
            _ => false,
        }
    }

    /// The view after a message.
    pub open spec fn after_msg(self, m: MsgView, at: Moment) -> ViewModel {
        match m {
            MsgView::Status(s) => self.after_status(s, at),
            MsgView::Subscribed(s) => ViewModel { audio_from_server: false, ..self }.after_status(
                s,
                at,
            ),
            MsgView::Info(_) => self,
            MsgView::SubscribeFailed(_) => self,
            MsgView::OpDone { kind, resp, epoch } => if self.is_late(m) {
                self
            } else {
                self.op_over(kind).after_status(resp.status, at)
            },
            MsgView::Error { source, message, epoch } => match source {
                ErrorSource::Start => if epoch == self.start_epoch {
                    self.op_over(OpKind::Start)
                } else {
                    self
                },
                ErrorSource::Stop => self.op_over(OpKind::Stop),
                ErrorSource::Status => self,
            },
        }
    }

    /// What a message makes the window do. A failure is told of once, when the
    /// session is found idle again.
    pub open spec fn effects(self, m: MsgView, at: Moment) -> EffectsView {
        let nothing = EffectsView { present: false, close: false, shown: None, message: None };
        match m {
            MsgView::Status(s) => EffectsView {
                shown: Some(
                    self.shown(
                        s,
                        if s.state == "Idle"@ && self.state() != "Idle"@ {
                            s.last_error
                        } else {
                            None
                        },
                        at,
                    ),
                ),
                ..nothing
            },
            MsgView::Subscribed(s) => EffectsView {
                shown: Some(
                    ViewModel { audio_from_server: false, ..self }.shown(s, s.last_error, at),
                ),
                ..nothing
            },
            MsgView::Info(t) => EffectsView { message: Some(t), ..nothing },
            MsgView::SubscribeFailed(e) => EffectsView { close: true, message: Some(e), ..nothing },
            MsgView::OpDone { kind, resp, epoch } => if self.is_late(m) {
                nothing
            } else {
                EffectsView {
                    present: true,
                    shown: Some(
                        self.op_over(kind).shown(
                            resp.status,
                            Some(warned_line(op_line(kind, resp), resp.warnings)),
                            at,
                        ),
                    ),
                    ..nothing
                }
            },
            MsgView::Error { source, message, epoch } => EffectsView {
                present: source != ErrorSource::Status,
                message: Some(message),
                ..nothing
            },
        }
    }
}

/// Which controls can be used: none but while nothing is going on.
pub open spec fn chrome_of(
    idle: bool,
    one: bool,
    both_eligible: bool,
    system_mode: u32,
    mic_on: bool,
) -> Chrome {
    Chrome {
        modes: idle,
        both: idle && both_eligible,
        pickers: idle && one,
        system_mode: idle,
        system_detail: idle && (system_mode == 1 || system_mode == 2),
        mic: idle,
        mic_device: idle && mic_on,
    }
}

/// Which controls can be used.
pub fn chrome(idle: bool, one: bool, both_eligible: bool, system_mode: u32, mic_on: bool) -> (r:
    Chrome)
    ensures
        r == chrome_of(idle, one, both_eligible, system_mode, mic_on),
{
    Chrome {
        modes: idle,
        both: idle && both_eligible,
        pickers: idle && one,
        system_mode: idle,
        system_detail: idle && (system_mode == 1 || system_mode == 2),
        mic: idle,
        mic_device: idle && mic_on,
    }
}

// ---------------------------------------------------------------------------
// Starting
// ---------------------------------------------------------------------------

/// Why a plan cannot be recorded: one application was chosen, and there is none.
pub fn refuse_plan(plan: &AudioPlan) -> (r: Option<&'static str>)
    ensures
        opt_str_view(r) == (if plan@.system == SystemAudioMode::App && plan@.app is None {
            Some("No app selected — start playback or pick All PC sound"@)
        } else {
            None
        }),
{
    if plan.system == SystemAudioMode::App && plan.app.is_none() {
        Some("No app selected — start playback or pick All PC sound")
    } else {
        None
    }
}

/// Why nothing is started: no mode is chosen, two monitors cannot be recorded, or
/// there is no monitor to record.
pub fn refuse_start(
    region: bool,
    one: bool,
    both: bool,
    gate: BothEnablement,
    no_outputs: bool,
) -> (r: Option<&'static str>)
    ensures
        opt_str_view(r) == (if !region && !one && !both {
            Some("Select Region, One monitor, or 2 monitors"@)
        } else if both && !(gate is Enabled) {
            Some(gate.shown())
        } else if one && no_outputs {
            Some("No outputs discovered (hyprctl monitors / wf-recorder -L)"@)
        } else {
            None
        }),
{
    if !region && !one && !both {
        return Some("Select Region, One monitor, or 2 monitors");
    }
    if both && !gate.enabled() {
        return Some(gate.tooltip());
    }
    if one && no_outputs {
        return Some("No outputs discovered (hyprctl monitors / wf-recorder -L)");
    }
    None
}

/// The line once a start was asked for.
pub fn starting_message(region: bool, both: bool, picker: &PickerState) -> (r: String)
    ensures
        r@ == (if region {
            "Select a region…"@
        } else if both {
            "Starting… 2 monitors"@
        } else {
            "Starting… Output: "@ + (match picker@.output_name() {
                Some(name) => name,
                None => "?"@,
            })
        }),
{
    if region {
        return "Select a region…".to_owned();
    }
    if both {
        return "Starting… 2 monitors".to_owned();
    }
    match picker.selected_output_name() {
        Some(name) => concat2("Starting… Output: ", name),
        None => concat2("Starting… Output: ", "?"),
    }
}

// ---------------------------------------------------------------------------
// Laws
// ---------------------------------------------------------------------------

/// A stop overtakes a start: once it was asked for, the answer to the start that
/// is under way changes nothing.
pub proof fn stop_overtakes_start(
    v: ViewModel,
    was_both: bool,
    resp: ResponseView,
    at: Moment,
)
    requires
        v.start_in_flight,
        v.start_epoch == v.epochs,
    ensures
        ({
            let stopped = v.stop_asked(was_both);
            let answer = MsgView::OpDone { kind: OpKind::Start, resp, epoch: v.start_epoch };
            &&& stopped.after_msg(answer, at) == stopped
            &&& stopped.effects(answer, at) == (EffectsView {
                present: false,
                close: false,
                shown: None,
                message: None,
            })
        }),
{
}

/// The answer to the start that counts ends it, and the answer to a stop ends
/// both.
pub proof fn answers_end_what_was_asked(
    v: ViewModel,
    resp: ResponseView,
    epoch: u64,
    at: Moment,
)
    ensures
        !v.after_msg(
            MsgView::OpDone { kind: OpKind::Start, resp, epoch: v.start_epoch },
            at,
        ).start_in_flight,
        ({
            let after = v.after_msg(MsgView::OpDone { kind: OpKind::Stop, resp, epoch }, at);
            !after.start_in_flight && !after.stop_in_flight && !after.stopping_both
        }),
{
}

/// A status says nothing of what was asked for: a start or a stop stays under
/// way until it is answered.
pub proof fn polling_keeps_requests(v: ViewModel, s: IpcStatusView, at: Moment)
    ensures
        ({
            let after = v.after_msg(MsgView::Status(s), at);
            &&& after.start_in_flight == v.start_in_flight
            &&& after.stop_in_flight == v.stop_in_flight
            &&& after.start_epoch == v.start_epoch
        }),
{
}

/// While nothing is going on the main button starts; while the session is busy
/// it stops.
pub proof fn button_says_what_a_click_does(v: ViewModel)
    requires
        v.state() == "Idle"@ || v.state() == "Recording"@ || v.state() == "Starting"@ || v.state()
            == "SelectingRegion"@ || v.state() == "Stopping"@,
    ensures
        v.button().stop == v.is_busy(),
        v.is_quiet() ==> v.button() == (PrimaryButton { stop: false, sensitive: true }),
{
    reveal_strlit("Idle");
    reveal_strlit("Recording");
    reveal_strlit("Starting");
    reveal_strlit("SelectingRegion");
    reveal_strlit("Stopping");
    assert("Idle"@[0] == 'I');
    assert("Recording"@[0] == 'R');
    assert("Starting"@[0] == 'S');
    assert("SelectingRegion"@[0] == 'S');
    assert("Stopping"@[0] == 'S');
}

} // verus!
