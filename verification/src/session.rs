//! The recording session as a state machine: its state, and for each command
//! which port calls it makes and how it ends, given their answers.

use vstd::prelude::*;
use vstd::string::*;

use crate::audio::cleaned;
use crate::both::{
    both_finish_run, both_poll_run, both_quit_run, both_start_run, both_stop_run, BothView,
};
use crate::config::ConfigView;
use crate::dual::{end_pair_run, LayoutView, Pair};
use crate::output::{path_allocation, recorder_argv, resolved_fps, resolved_output, with_stderr};
use crate::ports::{absolute_path, ExitStatus, PortError, Signal, Timestamp};
use crate::reap::{killed_run, recorder_run, slurp_run};
use crate::status::{MachineCode, ResultView, State, StatusView};
use crate::text::trim_of;
use crate::trace::PortCall;

verus! {

// ---------------------------------------------------------------------------
// State
// ---------------------------------------------------------------------------

/// What the session waits for from the file system.
#[verifier::ext_equal]
pub enum PendingView {
    Nothing,
    /// A place for the file of a recording that is about to start.
    Start { geometry: Option<Seq<char>>, output: Option<Seq<char>>, fps: Option<u32> },
    /// A look at the file of a recording whose recorder has ended.
    Finish { status: ExitStatus, cooperative: bool, stderr: Seq<char> },
    /// A place for the files of a recording of two monitors that is about to
    /// start.
    BothStart { layout: LayoutView },
    /// A look at the recordings of two monitors, with what the recorders wrote to
    /// stderr.
    BothTemps { children: Seq<char> },
    /// A look at the video that was composed, with how composing ended.
    BothFinal { composed: ExitStatus, composer: Seq<char> },
}

/// The state of a session.
#[verifier::ext_equal]
pub struct RecView {
    pub state: State,
    pub config: ConfigView,
    /// Audio of the current or last session.
    pub audio: bool,
    /// Audio for the region being selected.
    pub pending_audio: bool,
    /// Whether the start at hand is notified.
    pub notify_start: bool,
    /// The region selector that is running.
    pub selector: Option<int>,
    /// The recorder that is running.
    pub recorder: Option<int>,
    /// Two recorders that are running.
    pub pair: Option<Pair>,
    /// Two monitors, and where their recordings go.
    pub both: Option<BothView>,
    /// Files that are no longer needed.
    pub discard: Seq<Seq<char>>,
    pub output_path: Option<Seq<char>>,
    pub started_at: Option<Timestamp>,
    pub last_error: Option<Seq<char>>,
    pub last_success_path: Option<Seq<char>>,
    pub last_child_exit: Option<ExitStatus>,
    /// Signals of the current or last stop.
    pub stop_sent_signals: Seq<Signal>,
    pub stopping_pid: Option<u32>,
    pub capture_output: Option<Seq<char>>,
    pub capture_mode: Option<Seq<char>>,
    pub forced_outputs: Option<Seq<Seq<char>>>,
    pub pending: PendingView,
}

impl RecView {
    /// Nothing is known of a recording.
    pub open spec fn at_rest(self) -> bool {
        &&& self.output_path is None
        &&& self.started_at is None
        &&& self.stopping_pid is None
        &&& self.capture_output is None
        &&& self.capture_mode is None
    }

    /// What is captured is known: a region, or one or more outputs by name.
    pub open spec fn captures(self) -> bool {
        &&& self.capture_mode is Some
        &&& self.capture_output is None == (self.capture_mode == Some("region"@))
    }

    /// A recording was begun: its file, its start and what it captures are known.
    pub open spec fn under_way(self) -> bool {
        &&& self.output_path is Some
        &&& self.started_at is Some
        &&& self.captures()
    }

    /// What holds of every session: which children run, what is waited for and
    /// what is known of a recording follow from the state.
    pub open spec fn wf(self) -> bool {
        &&& self.selector is Some == (self.state == State::SelectingRegion)
        &&& (self.recorder is Some || self.pair is Some) == (self.state == State::Recording)
        &&& !(self.recorder is Some && self.pair is Some)
        &&& self.pair is Some ==> self.pair->0.a != self.pair->0.b
        &&& self.both is Some == (self.pair is Some || self.pending is BothTemps
            || self.pending is BothFinal)
        &&& match self.state {
            State::Starting => {
                &&& self.pending is Start || self.pending is BothStart
                &&& self.output_path is None
                &&& self.started_at is None
                &&& self.stopping_pid is None
                &&& self.captures()
            },
            State::Recording => {
                &&& self.pending is Nothing
                &&& self.stopping_pid is None
                &&& self.under_way()
            },
            State::Stopping => {
                &&& self.pending is Finish || self.pending is BothTemps || self.pending is BothFinal
                &&& self.under_way()
            },
            _ => self.pending is Nothing && self.at_rest(),
        }
    }

    /// A session that has done nothing yet.
    pub open spec fn fresh(config: ConfigView) -> RecView {
        RecView {
            state: State::Idle,
            config,
            audio: config.audio_default,
            pending_audio: config.audio_default,
            notify_start: true,
            selector: None,
            recorder: None,
            pair: None,
            both: None,
            discard: Seq::empty(),
            output_path: None,
            started_at: None,
            last_error: None,
            last_success_path: None,
            last_child_exit: None,
            stop_sent_signals: Seq::empty(),
            stopping_pid: None,
            capture_output: None,
            capture_mode: None,
            forced_outputs: None,
            pending: PendingView::Nothing,
        }
    }

    /// The session with an error to show.
    pub open spec fn with_error(self, message: Seq<char>) -> RecView {
        RecView { last_error: Some(message), ..self }
    }

    /// The session about to start a recording.
    pub open spec fn starting(
        self,
        audio: bool,
        geometry: Option<Seq<char>>,
        output: Option<Seq<char>>,
        fps: Option<u32>,
    ) -> RecView {
        RecView {
            state: State::Starting,
            audio,
            selector: None,
            capture_output: output,
            capture_mode: Some(
                if geometry is Some {
                    "region"@
                } else {
                    "one"@
                },
            ),
            pending: PendingView::Start { geometry, output, fps },
            ..self
        }
    }

    /// The session back at rest after a start that came to nothing.
    pub open spec fn not_started(self) -> RecView {
        RecView {
            state: State::Idle,
            capture_output: None,
            capture_mode: None,
            pending: PendingView::Nothing,
            ..self
        }
    }

    /// The session recording to `path`, by the recorder `who`.
    pub open spec fn recording_to(self, who: int, path: Seq<char>, at: Timestamp) -> RecView {
        RecView {
            state: State::Recording,
            recorder: Some(who),
            output_path: Some(path),
            started_at: Some(at),
            pending: PendingView::Nothing,
            ..self
        }
    }

    /// The session whose recorder has ended.
    pub open spec fn ended(self, status: ExitStatus, cooperative: bool, stderr: Seq<char>) -> RecView {
        RecView {
            state: State::Stopping,
            recorder: None,
            pending: PendingView::Finish { status, cooperative, stderr },
            ..self
        }
    }

    /// The session at rest after a recording, with its outcome still to be set.
    pub open spec fn over(self) -> RecView {
        RecView {
            state: State::Idle,
            recorder: None,
            pair: None,
            both: None,
            output_path: None,
            started_at: None,
            stopping_pid: None,
            capture_output: None,
            capture_mode: None,
            pending: PendingView::Nothing,
            ..self
        }
    }

    /// The snapshot of the session at `now`, with the recorder's process id.
    pub open spec fn status_at(self, now: Timestamp, pid: Option<u32>) -> StatusView {
        let active = self.state == State::Recording || self.state == State::Stopping;
        let capturing = active || self.state == State::Starting;
        StatusView {
            state: self.state,
            output_path: self.output_path,
            pid: match pid {
                Some(p) => Some(p),
                None => self.stopping_pid,
            },
            started_at_unix: match self.started_at {
                Some(t) => match t.unix_secs() {
                    Some(s) => Some(s as u64),
                    None => None,
                },
                None => None,
            },
            audio: self.audio,
            last_error: self.last_error,
            last_success_path: self.last_success_path,
            elapsed_ms: if active {
                match self.started_at {
                    Some(t) => match now.millis_since(t) {
                        Some(ms) => Some(ms as u64),
                        None => None,
                    },
                    None => None,
                }
            } else {
                None
            },
            capture_output: if capturing {
                self.capture_output
            } else {
                None
            },
            capture_mode: if capturing {
                self.capture_mode
            } else {
                None
            },
        }
    }
}

/// What a command leads to.
#[verifier::ext_equal]
pub enum StepView {
    /// The command is over.
    Done(ResultView),
    /// A place for the recording's file is needed.
    PrepareOutput,
    /// A look at the recording's file is needed.
    CheckOutput,
    /// A look at the recordings of two monitors is needed.
    CheckTemps,
}

/// What was found of the place for a recording's file.
#[verifier::ext_equal]
pub struct SiteView {
    /// Why the output directory is not there, if it is not.
    pub failed: Option<Seq<char>>,
    /// The paths in the output directory that are taken.
    pub taken: Seq<Seq<char>>,
    /// The working directory.
    pub cwd: Seq<char>,
}

// ---------------------------------------------------------------------------
// Messages
// ---------------------------------------------------------------------------

/// A program that is needed and missing.
pub open spec fn missing_dependency(binary: Seq<char>) -> Seq<char> {
    "missing hard dependency: "@ + binary
}

/// The message when stopping needed SIGKILL.
pub open spec fn stop_timed_out(path: Option<Seq<char>>, stderr: Seq<char>) -> Seq<char> {
    with_stderr(
        "stop timed out after SIGINT/SIGTERM; nuclear SIGKILL used to reap; file may be corrupt"@
            + (match path {
            Some(p) => " ("@ + p + ")"@,
            None => Seq::empty(),
        }),
        stderr,
    )
}

/// Why the file of a recording that has ended does not count as a success.
pub open spec fn finish_failure(
    status: ExitStatus,
    cooperative: bool,
    stderr: Seq<char>,
    path: Seq<char>,
    file: Result<bool, Seq<char>>,
) -> Option<Seq<char>> {
    match file {
        Err(e) => Some(with_stderr("cannot stat output file: "@ + e, stderr)),
        Ok(false) => Some(
            with_stderr("recording failed: output missing or empty ("@ + path + ")"@, stderr),
        ),
        Ok(true) => if cooperative {
            None
        } else {
            Some(
                with_stderr(
                    "recording failed: unexpected child exit ("@ + status.text() + "), path="@
                        + path,
                    stderr,
                ),
            )
        },
    }
}

/// The message of a success.
pub open spec fn saved_message(path: Seq<char>, status: ExitStatus) -> Seq<char> {
    if status == ExitStatus::Code(0) {
        "saved "@ + path
    } else {
        "saved "@ + path + (" (child "@ + status.text() + ")"@)
    }
}

/// The notification of a success.
pub open spec fn saved_body(path: Seq<char>, copy_path: bool, copy_failed: bool) -> Seq<char> {
    if copy_path && !copy_failed {
        "Saved "@ + path + "\nPath copied to clipboard"@
    } else if copy_path {
        "Saved "@ + path + "\n(clipboard warning)"@
    } else {
        "Saved "@ + path
    }
}

/// The title of every notification.
pub open spec fn notify_title() -> Seq<char> {
    "record-ui"@
}

/// `a` where it is given, else `default`.
pub open spec fn flag_or(a: Option<bool>, default: bool) -> bool {
    match a {
        Some(b) => b,
        None => default,
    }
}

// ---------------------------------------------------------------------------
// Selecting a region
// ---------------------------------------------------------------------------

/// Beginning to select a region.
pub open spec fn begin_run(
    pre: RecView,
    audio: Option<bool>,
    notify_start: bool,
    calls: Seq<PortCall>,
    post: RecView,
    out: Result<(), ResultView>,
) -> bool {
    let no_slurp = missing_dependency("slurp"@);
    let no_recorder = missing_dependency("wf-recorder"@);
    let begun = RecView {
        pending_audio: flag_or(audio, pre.config.audio_default),
        notify_start,
        last_error: None,
        ..pre
    };
    if pre.state != State::Idle {
        calls.len() == 0 && post == pre && out == Err::<(), ResultView>(ResultView::busy(pre.state))
    } else {
        &&& calls.len() >= 1
        &&& calls[0] matches PortCall::Probe { binary: b0, found: f0 }
        &&& b0 == "slurp"@
        &&& if !f0 {
            &&& calls.len() == 1
            &&& post == pre.with_error(no_slurp)
            &&& out == Err::<(), ResultView>(ResultView::failed(MachineCode::DepMissing, no_slurp))
        } else {
            &&& calls.len() >= 2
            &&& calls[1] matches PortCall::Probe { binary: b1, found: f1 }
            &&& b1 == "wf-recorder"@
            &&& if !f1 {
                &&& calls.len() == 2
                &&& post == pre.with_error(no_recorder)
                &&& out == Err::<(), ResultView>(
                    ResultView::failed(MachineCode::DepMissing, no_recorder),
                )
            } else {
                &&& calls.len() == 3
                &&& calls[2] matches PortCall::Spawn { who, argv, new_group, failed }
                &&& argv == seq!["slurp"@]
                &&& !new_group
                &&& match failed {
                    None => post == (RecView {
                        state: State::SelectingRegion,
                        selector: Some(who),
                        ..begun
                    }) && out == Ok::<(), ResultView>(()),
                    Some(e) => post == begun.with_error("failed to spawn slurp: "@ + e) && out
                        == Err::<(), ResultView>(
                        ResultView::failed(
                            MachineCode::SpawnFailed,
                            "failed to spawn slurp: "@ + e,
                        ),
                    ),
                }
            }
        }
    }
}

/// The region selector has exited: no geometry means that the user gave up.
pub open spec fn selected_run(
    pre: RecView,
    status: ExitStatus,
    calls: Seq<PortCall>,
    post: RecView,
    out: StepView,
) -> bool {
    &&& calls.len() == 1
    &&& calls[0] matches PortCall::Stdout { who, text }
    &&& who == pre.selector->0
    &&& if status != ExitStatus::Code(0) || trim_of(text).len() == 0 {
        &&& post == (RecView { state: State::Idle, selector: None, ..pre })
        &&& out == StepView::Done(ResultView::cancelled())
    } else {
        &&& post == pre.starting(pre.pending_audio, Some(trim_of(text)), None, None)
        &&& out == StepView::PrepareOutput
    }
}

/// The region selector was ended because it could not be watched.
pub open spec fn lost_selector(
    pre: RecView,
    message: Seq<char>,
    post: RecView,
    out: StepView,
) -> bool {
    &&& post == (RecView { state: State::Idle, selector: None, ..pre }).with_error(message)
    &&& out == StepView::Done(ResultView::failed(MachineCode::IoError, message))
}

/// Waiting for the region to be selected.
pub open spec fn complete_run(
    pre: RecView,
    calls: Seq<PortCall>,
    post: RecView,
    out: StepView,
) -> bool {
    if pre.state != State::SelectingRegion {
        &&& calls.len() == 0
        &&& post == pre
        &&& out == StepView::Done(
            ResultView::failed(
                MachineCode::Invalid,
                "complete_region_selection requires SelectingRegion, got "@ + pre.state.name(),
            ),
        )
    } else {
        &&& calls.len() >= 1
        &&& calls[0] matches PortCall::Wait { who, answer }
        &&& who == pre.selector->0
        &&& match answer {
            Ok(status) => selected_run(pre, status, calls.skip(1), post, out),
            Err(e) => slurp_run(calls.skip(1), who) && lost_selector(
                pre,
                "slurp wait failed: "@ + e,
                post,
                out,
            ),
        }
    }
}

/// Looking whether the region is selected.
pub open spec fn poll_region_run(
    pre: RecView,
    calls: Seq<PortCall>,
    post: RecView,
    out: Option<StepView>,
) -> bool {
    if pre.state != State::SelectingRegion {
        calls.len() == 0 && post == pre && out is None
    } else {
        &&& calls.len() >= 1
        &&& calls[0] matches PortCall::TryWait { who, answer }
        &&& who == pre.selector->0
        &&& match answer {
            Ok(None) => calls.len() == 1 && post == pre && out is None,
            Ok(Some(status)) => out is Some && selected_run(
                pre,
                status,
                calls.skip(1),
                post,
                out->0,
            ),
            Err(e) => slurp_run(calls.skip(1), who) && out is Some && lost_selector(
                pre,
                "slurp poll failed: "@ + e,
                post,
                out->0,
            ),
        }
    }
}

/// Giving up the selection.
pub open spec fn cancel_run(
    pre: RecView,
    calls: Seq<PortCall>,
    post: RecView,
    out: StepView,
) -> bool {
    &&& slurp_run(calls, pre.selector->0)
    &&& post == (RecView { state: State::Idle, selector: None, ..pre })
    &&& out == StepView::Done(ResultView::cancelled())
}

// ---------------------------------------------------------------------------
// Starting
// ---------------------------------------------------------------------------

/// Starting to capture one output.
pub open spec fn fullscreen_run(
    pre: RecView,
    audio: Option<bool>,
    notify_start: bool,
    output: Option<Seq<char>>,
    fps: Option<u32>,
    live_outputs: Seq<Seq<char>>,
    calls: Seq<PortCall>,
    post: RecView,
    out: StepView,
) -> bool {
    let no_recorder = missing_dependency("wf-recorder"@);
    let inventory = match pre.forced_outputs {
        Some(f) => f,
        None => live_outputs,
    };
    if pre.state != State::Idle {
        calls.len() == 0 && post == pre && out == StepView::Done(ResultView::busy(pre.state))
    } else {
        &&& calls.len() == 1
        &&& calls[0] matches PortCall::Probe { binary, found }
        &&& binary == "wf-recorder"@
        &&& if !found {
            &&& post == pre.with_error(no_recorder)
            &&& out == StepView::Done(ResultView::failed(MachineCode::DepMissing, no_recorder))
        } else {
            match resolved_output(output, cleaned(pre.config.fullscreen_output), inventory) {
                Err(e) => {
                    &&& post == pre.with_error(e)
                    &&& out == StepView::Done(ResultView::failed(MachineCode::Invalid, e))
                },
                Ok(name) => {
                    &&& post == (RecView { notify_start, last_error: None, ..pre }).starting(
                        flag_or(audio, pre.config.audio_default),
                        None,
                        Some(name),
                        resolved_fps(fps, pre.config.one_fps),
                    )
                    &&& out == StepView::PrepareOutput
                },
            }
        }
    }
}

/// A start that failed before a recorder was there.
pub open spec fn start_failed(
    pre: RecView,
    code: MachineCode,
    message: Seq<char>,
    post: RecView,
    out: StepView,
) -> bool {
    &&& post == pre.not_started().with_error(message)
    &&& out == StepView::Done(ResultView::failed(code, message))
}

/// The body of the start notification, and the message of a start.
pub open spec fn started_text(capture_output: Option<Seq<char>>, plain: Seq<char>) -> Seq<char> {
    match capture_output {
        Some(o) => "Recording "@ + o,
        None => plain,
    }
}

/// The recorder is running: its first exit is looked for, and the start is
/// notified where that is wanted.
pub open spec fn settled_run(
    pre: RecView,
    calls: Seq<PortCall>,
    post: RecView,
    out: StepView,
) -> bool {
    &&& calls.len() >= 2
    &&& calls[0] == (PortCall::Sleep { millis: 200 })
    &&& calls[1] matches PortCall::TryWait { who, answer }
    &&& who == pre.recorder->0
    &&& match answer {
        Ok(None) => {
            &&& post == pre
            &&& out == StepView::Done(
                ResultView::done(started_text(pre.capture_output, "recording started"@)),
            )
            &&& if pre.notify_start && pre.config.notify && pre.config.notify_on_start_cli {
                &&& calls.len() == 3
                &&& calls[2] matches PortCall::Notify { title, body, failed: _ }
                &&& title == notify_title()
                &&& body == started_text(pre.capture_output, "Recording started"@)
            } else {
                calls.len() == 2
            }
        },
        _ => exited_run(pre, calls.skip(1), post, Some(out)),
    }
}

/// The place for the file is known: a name is chosen and the recorder is started.
pub open spec fn start_run(
    pre: RecView,
    site: SiteView,
    calls: Seq<PortCall>,
    post: RecView,
    out: StepView,
) -> bool {
    match site.failed {
        Some(e) => calls.len() == 0 && start_failed(
            pre,
            MachineCode::IoError,
            "cannot create output_dir: "@ + e,
            post,
            out,
        ),
        None => {
            &&& calls.len() >= 1
            &&& calls[0] matches PortCall::Now { time }
            &&& exists|allocated: Result<String, PortError>|
                {
                    &&& #[trigger] path_allocation(
                        allocated,
                        pre.config.output_dir,
                        time,
                        site.taken,
                    )
                    &&& named_run(pre, allocated, site.cwd, calls.skip(1), post, out)
                }
        },
    }
}

/// The place for the files of a recording is known.
pub open spec fn output_run(
    pre: RecView,
    site: SiteView,
    calls: Seq<PortCall>,
    post: RecView,
    out: StepView,
) -> bool {
    if pre.pending is BothStart {
        both_start_run(pre, site, calls, post, out)
    } else {
        start_run(pre, site, calls, post, out)
    }
}

/// A file name was looked for: with it, the recorder is spawned.
pub open spec fn named_run(
    pre: RecView,
    allocated: Result<String, PortError>,
    cwd: Seq<char>,
    calls: Seq<PortCall>,
    post: RecView,
    out: StepView,
) -> bool {
    let geometry = pre.pending->geometry;
    let output = pre.pending->output;
    match allocated {
        Err(e) => calls.len() == 0 && start_failed(
            pre,
            MachineCode::IoError,
            "cannot allocate output path: "@ + e.text(),
            post,
            out,
        ),
        Ok(p) => if geometry is None && cleaned(output) is None {
            calls.len() == 0 && start_failed(
                pre,
                MachineCode::Invalid,
                "internal: fullscreen spawn without resolved output"@,
                post,
                out,
            )
        } else {
            spawned_run(
                pre,
                absolute_path(p@, cwd),
                geometry,
                output,
                pre.pending->fps,
                calls,
                post,
                out,
            )
        },
    }
}

/// The recorder is spawned, in a process group of its own.
pub open spec fn spawned_run(
    pre: RecView,
    path: Seq<char>,
    geometry: Option<Seq<char>>,
    output: Option<Seq<char>>,
    fps: Option<u32>,
    calls: Seq<PortCall>,
    post: RecView,
    out: StepView,
) -> bool {
    &&& calls.len() >= 1
    &&& calls[0] matches PortCall::Spawn { who, argv, new_group, failed }
    &&& argv == recorder_argv(geometry, pre.audio, path, output, fps)
    &&& new_group
    &&& match failed {
        Some(e) => {
            &&& calls.len() == 1
            &&& start_failed(
                RecView { output_path: None, started_at: None, ..pre },
                MachineCode::SpawnFailed,
                "failed to spawn wf-recorder: "@ + e,
                post,
                out,
            )
        },
        None => {
            &&& calls.len() >= 2
            &&& calls[1] matches PortCall::Now { time }
            &&& settled_run(pre.recording_to(who, path, time), calls.skip(2), post, out)
        },
    }
}

// ---------------------------------------------------------------------------
// Stopping
// ---------------------------------------------------------------------------

/// The recorder is looked at while it should be running.
pub open spec fn exited_run(
    pre: RecView,
    calls: Seq<PortCall>,
    post: RecView,
    out: Option<StepView>,
) -> bool {
    &&& calls.len() >= 1
    &&& calls[0] matches PortCall::TryWait { who, answer }
    &&& who == pre.recorder->0
    &&& match answer {
        Ok(None) => calls.len() == 1 && post == pre && out is None,
        Ok(Some(status)) => {
            &&& calls.len() == 2
            &&& calls[1] matches PortCall::Stderr { who: w1, text }
            &&& w1 == who
            &&& post == pre.ended(status, false, text)
            &&& out == Some(StepView::CheckOutput)
        },
        Err(e) => {
            &&& recorder_run(calls.skip(1), who)
            &&& post == pre.over().with_error("recorder poll failed: "@ + e)
            &&& out == Some(
                StepView::Done(
                    ResultView::failed(MachineCode::IoError, "recorder poll failed: "@ + e),
                ),
            )
        },
    }
}

/// The error to show after SIGINT was sent and waited for.
pub open spec fn interrupt_error(
    pre: RecView,
    failed: Option<Seq<char>>,
    answer: Result<Option<ExitStatus>, Seq<char>>,
) -> Option<Seq<char>> {
    match answer {
        Err(e) => Some("wait after SIGINT failed: "@ + e),
        Ok(_) => match failed {
            Some(e) => Some("SIGINT to process group failed: "@ + e),
            None => pre.last_error,
        },
    }
}

/// Stopping the recorder: SIGINT, then SIGTERM, then SIGKILL to its process
/// group, each after the time allowed for the one before.
pub open spec fn stop_recorder_run(
    pre: RecView,
    calls: Seq<PortCall>,
    post: RecView,
    out: StepView,
) -> bool {
    let who = pre.recorder->0;
    &&& calls.len() >= 4
    &&& calls[0] matches PortCall::Id { who: c0, pid }
    &&& c0 == who
    &&& calls[1] matches PortCall::Signal { who: c1, group: g1, signal: s1, failed: f1 }
    &&& c1 == who && g1 && s1 == Signal::Interrupt
    &&& calls[2] matches PortCall::WaitTimeout { who: c2, millis: m1, answer: w1 }
    &&& c2 == who && m1 == pre.config.stop_timeout_ms
    &&& {
        let asked = RecView {
            stopping_pid: Some(pid),
            stop_sent_signals: seq![Signal::Interrupt],
            last_error: interrupt_error(pre, f1, w1),
            ..pre
        };
        match w1 {
            Ok(Some(status)) => {
                &&& calls.len() == 4
                &&& calls[3] matches PortCall::Stderr { who: c3, text }
                &&& c3 == who
                &&& post == asked.ended(status, true, text)
                &&& out == StepView::CheckOutput
            },
            _ => terminate_run(asked, calls.skip(3), post, out),
        }
    }
}

/// Stopping a recorder that SIGINT did not stop.
pub open spec fn terminate_run(
    pre: RecView,
    calls: Seq<PortCall>,
    post: RecView,
    out: StepView,
) -> bool {
    let who = pre.recorder->0;
    &&& calls.len() >= 3
    &&& calls[0] matches PortCall::Signal { who: c0, group: g2, signal: s2, failed: _ }
    &&& c0 == who && g2 && s2 == Signal::Terminate
    &&& calls[1] matches PortCall::WaitTimeout { who: c1, millis: m2, answer: w2 }
    &&& c1 == who && m2 == pre.config.stop_term_timeout_ms
    &&& {
        let asked = RecView {
            stop_sent_signals: seq![Signal::Interrupt, Signal::Terminate],
            ..pre
        };
        match w2 {
            Ok(Some(status)) => {
                &&& calls.len() == 3
                &&& calls[2] matches PortCall::Stderr { who: c2, text }
                &&& c2 == who
                &&& post == asked.ended(status, true, text)
                &&& out == StepView::CheckOutput
            },
            _ => kill_run(asked, calls.skip(2), post, out),
        }
    }
}

/// Stopping a recorder that SIGTERM did not stop: the recording is given up.
pub open spec fn kill_run(
    pre: RecView,
    calls: Seq<PortCall>,
    post: RecView,
    out: StepView,
) -> bool {
    let who = pre.recorder->0;
    &&& calls.len() >= 1
    &&& calls[0] matches PortCall::Signal { who: c0, group, signal, failed: _ }
    &&& c0 == who && group && signal == Signal::Kill
    &&& exists|k: int|
        {
            &&& 1 <= k < calls.len()
            &&& #[trigger] killed_run(calls.subrange(1, k), who, true)
            &&& calls[k] matches PortCall::Stderr { who: ck, text }
            &&& ck == who
            &&& given_up_run(pre, stop_timed_out(pre.output_path, text), calls.skip(k + 1), post, out)
        }
}

/// The recording is given up.
pub open spec fn given_up_run(
    pre: RecView,
    message: Seq<char>,
    calls: Seq<PortCall>,
    post: RecView,
    out: StepView,
) -> bool {
    &&& post == (RecView {
        stop_sent_signals: seq![Signal::Interrupt, Signal::Terminate, Signal::Kill],
        ..pre
    }).over().with_error(message)
    &&& out == StepView::Done(ResultView::failed(MachineCode::StopTimeout, message))
    &&& told(pre.config.notify, message, calls)
}

/// The user is told `message`, where notifications are on.
pub open spec fn told(notify: bool, message: Seq<char>, calls: Seq<PortCall>) -> bool {
    if notify {
        &&& calls.len() == 1
        &&& calls[0] matches PortCall::Notify { title, body, failed: _ }
        &&& title == notify_title()
        &&& body == message
    } else {
        calls.len() == 0
    }
}

/// Stopping in whatever state.
pub open spec fn stop_run(
    pre: RecView,
    calls: Seq<PortCall>,
    post: RecView,
    out: StepView,
) -> bool {
    match pre.state {
        State::Idle => calls.len() == 0 && post == pre && out == StepView::Done(
            ResultView::done("already idle"@),
        ),
        State::SelectingRegion => cancel_run(pre, calls, post, out),
        State::Starting => {
            &&& calls.len() == 0
            &&& post == pre.over()
            &&& out == StepView::Done(ResultView::done("aborted start (no child)"@))
        },
        State::Recording => if pre.pair is Some {
            both_stop_run(pre, calls, post, out)
        } else {
            stop_recorder_run(pre, calls, post, out)
        },
        State::Stopping => calls.len() == 0 && post == pre && out == StepView::Done(
            ResultView::done("already stopping/idle"@),
        ),
    }
}

/// Stopping because the session is shut down: as by a stop, but nothing is
/// composed of the recordings of two monitors.
pub open spec fn shutdown_run(
    pre: RecView,
    calls: Seq<PortCall>,
    post: RecView,
    out: StepView,
) -> bool {
    if pre.state == State::Recording && pre.pair is Some {
        both_quit_run(pre, calls, post, out)
    } else {
        stop_run(pre, calls, post, out)
    }
}

/// Ending the children at once.
pub open spec fn release_run(pre: RecView, calls: Seq<PortCall>, post: RecView) -> bool {
    &&& post == (RecView { selector: None, ..pre.over() })
    &&& match pre.state {
        State::SelectingRegion => slurp_run(calls, pre.selector->0),
        State::Recording => if pre.pair is Some {
            end_pair_run(calls, pre.pair->0)
        } else {
            recorder_run(calls, pre.recorder->0)
        },
        _ => calls.len() == 0,
    }
}

/// Looking at the session from time to time.
pub open spec fn poll_run(
    pre: RecView,
    calls: Seq<PortCall>,
    post: RecView,
    out: Option<StepView>,
) -> bool {
    match pre.state {
        State::SelectingRegion => poll_region_run(pre, calls, post, out),
        State::Recording => if pre.pair is Some {
            both_poll_run(pre, calls, post, out)
        } else {
            exited_run(pre, calls, post, out)
        },
        _ => calls.len() == 0 && post == pre && out is None,
    }
}

/// Selecting a region and waiting for it.
pub open spec fn region_run(
    pre: RecView,
    audio: Option<bool>,
    notify_start: bool,
    calls: Seq<PortCall>,
    post: RecView,
    out: StepView,
) -> bool {
    ||| exists|e: ResultView|
        {
            &&& #[trigger] begin_run(pre, audio, notify_start, calls, post, Err(e))
            &&& out == StepView::Done(e)
        }
    ||| exists|between: RecView|
        {
            &&& calls.len() >= 3
            &&& #[trigger] begin_run(pre, audio, notify_start, calls.take(3), between, Ok(()))
            &&& complete_run(between, calls.skip(3), post, out)
        }
}

/// Toggling: a region from rest, otherwise a stop.
pub open spec fn toggle_run(
    pre: RecView,
    audio: Option<bool>,
    notify_start: bool,
    calls: Seq<PortCall>,
    post: RecView,
    out: StepView,
) -> bool {
    if pre.state == State::Idle {
        region_run(pre, audio, notify_start, calls, post, out)
    } else {
        stop_run(pre, calls, post, out)
    }
}

// ---------------------------------------------------------------------------
// Finishing
// ---------------------------------------------------------------------------

/// The warnings of a success.
pub open spec fn saved_warnings(
    copy_failed: Option<Seq<char>>,
    notify_failed: Option<Seq<char>>,
) -> Seq<Seq<char>> {
    (match copy_failed {
        Some(e) => seq!["clipboard failed: "@ + e],
        None => Seq::empty(),
    }) + (match notify_failed {
        Some(e) => seq!["notify failed: "@ + e],
        None => Seq::empty(),
    })
}

/// The file of an ended recording was looked at: the recording is a success if
/// it was stopped on request and its file is not empty, whatever the exit code.
/// Only a success puts the path on the clipboard.
pub open spec fn finish_run(
    pre: RecView,
    file: Result<bool, Seq<char>>,
    calls: Seq<PortCall>,
    post: RecView,
    out: ResultView,
) -> bool {
    let status = pre.pending->status;
    let path = pre.output_path->0;
    let over = RecView { last_child_exit: Some(status), ..pre.over() };
    match finish_failure(status, pre.pending->cooperative, pre.pending->stderr, path, file) {
        Some(message) => {
            &&& post == over.with_error(message)
            &&& out == ResultView::failed(MachineCode::IoError, message)
            &&& told(pre.config.notify, message, calls)
        },
        None => {
            &&& post == (RecView { last_success_path: Some(path), last_error: None, ..over })
            &&& saved_run(pre.config, path, status, calls, out)
        },
    }
}

/// The file of a recording that has ended was looked at.
pub open spec fn check_run(
    pre: RecView,
    file: Result<bool, Seq<char>>,
    calls: Seq<PortCall>,
    post: RecView,
    out: ResultView,
) -> bool {
    if pre.pending is BothFinal {
        both_finish_run(pre, file, calls, post, out)
    } else {
        finish_run(pre, file, calls, post, out)
    }
}

/// A success is announced: the path on the clipboard, and a notification.
pub open spec fn saved_run(
    config: ConfigView,
    path: Seq<char>,
    status: ExitStatus,
    calls: Seq<PortCall>,
    out: ResultView,
) -> bool {
    let n = if config.copy_path {
        1int
    } else {
        0
    };
    let copy_failed = if config.copy_path {
        calls[0]->Copy_failed
    } else {
        None
    };
    let notify_failed = if config.notify {
        calls[n]->Notify_failed
    } else {
        None
    };
    &&& calls.len() == n + (if config.notify {
        1int
    } else {
        0
    })
    &&& config.copy_path ==> calls[0] == (PortCall::Copy { text: path, failed: copy_failed })
    &&& config.notify ==> calls[n] == (PortCall::Notify {
        title: notify_title(),
        body: saved_body(path, config.copy_path, copy_failed is Some),
        failed: notify_failed,
    })
    &&& out == (ResultView {
        ok: true,
        code: MachineCode::Success,
        message: saved_message(path, status),
        warnings: saved_warnings(copy_failed, notify_failed),
    })
}

} // verus!
