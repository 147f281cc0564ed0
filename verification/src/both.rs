//! A session with two monitors as a state machine: which port calls each command
//! makes and how it ends, given their answers.

use vstd::prelude::*;
use vstd::string::*;

use crate::dual::{
    both_allocation, both_argv, compose_argv, end_pair_run, joined_stderr, layout_of, no_positions,
    not_two, reap_pair_run, reported, running, signal_pair_run, wait_pair_run, BothFiles,
    LayoutView, Pair,
};
use crate::output::with_stderr;
use crate::outputs::{names_of, OutputView};
use crate::ports::{absolute_path, ExitStatus, PortError, Signal, Timestamp};
use crate::reap::recorder_run;
use crate::session::{
    flag_or, given_up_run, missing_dependency, notify_title, saved_run, start_failed, started_text,
    stop_timed_out, told, PendingView, RecView, SiteView, StepView,
};
use crate::status::{MachineCode, ResultView, State};
use crate::trace::PortCall;

verus! {

/// Two monitors and the files that their recordings are written to.
#[verifier::ext_equal]
pub struct BothView {
    pub layout: LayoutView,
    /// The recording of the primary monitor.
    pub a: Seq<char>,
    /// The recording of the other one.
    pub b: Seq<char>,
}

impl BothView {
    /// What is said of the recordings when there is no video of them.
    pub open spec fn kept(self) -> Seq<char> {
        " (recordings kept: "@ + self.a + ", "@ + self.b + ")"@
    }
}

impl RecView {
    /// The session about to record two monitors.
    pub open spec fn starting_both(self, audio: bool, layout: LayoutView) -> RecView {
        RecView {
            state: State::Starting,
            audio,
            capture_output: Some(layout.label()),
            capture_mode: Some("both"@),
            pending: PendingView::BothStart { layout },
            ..self
        }
    }

    /// The session recording two monitors by the recorders `pair`, for a video at
    /// `path`.
    pub open spec fn recording_both(
        self,
        pair: Pair,
        files: BothView,
        path: Seq<char>,
        at: Timestamp,
    ) -> RecView {
        RecView {
            state: State::Recording,
            pair: Some(pair),
            both: Some(files),
            output_path: Some(path),
            started_at: Some(at),
            pending: PendingView::Nothing,
            ..self
        }
    }

    /// The session whose two recorders have ended.
    pub open spec fn both_ended(self, stderr: Seq<char>) -> RecView {
        RecView {
            state: State::Stopping,
            pair: None,
            pending: PendingView::BothTemps { children: stderr },
            ..self
        }
    }
}

// ---------------------------------------------------------------------------
// Starting
// ---------------------------------------------------------------------------

/// Starting to record two monitors.
pub open spec fn both_run(
    pre: RecView,
    audio: Option<bool>,
    notify_start: bool,
    outputs: Seq<OutputView>,
    calls: Seq<PortCall>,
    post: RecView,
    out: StepView,
) -> bool {
    let no_composer = missing_dependency("ffmpeg"@);
    let no_recorder = missing_dependency("wf-recorder"@);
    let too_many = not_two(names_of(outputs));
    if pre.state != State::Idle {
        calls.len() == 0 && post == pre && out == StepView::Done(ResultView::busy(pre.state))
    } else if outputs.len() != 2 {
        &&& calls.len() == 0
        &&& post == pre.with_error(too_many)
        &&& out == StepView::Done(ResultView::failed(MachineCode::Invalid, too_many))
    } else {
        &&& calls.len() >= 1
        &&& calls[0] matches PortCall::Probe { binary: b0, found: f0 }
        &&& b0 == "ffmpeg"@
        &&& if !f0 {
            &&& calls.len() == 1
            &&& post == pre.with_error(no_composer)
            &&& out == StepView::Done(ResultView::failed(MachineCode::DepMissing, no_composer))
        } else {
            &&& calls.len() == 2
            &&& calls[1] matches PortCall::Probe { binary: b1, found: f1 }
            &&& b1 == "wf-recorder"@
            &&& if !f1 {
                &&& post == pre.with_error(no_recorder)
                &&& out == StepView::Done(
                    ResultView::failed(MachineCode::DepMissing, no_recorder),
                )
            } else {
                match layout_of(outputs) {
                    None => {
                        &&& post == pre.with_error(no_positions())
                        &&& out == StepView::Done(
                            ResultView::failed(MachineCode::Invalid, no_positions()),
                        )
                    },
                    Some(layout) => {
                        &&& post == (RecView { notify_start, last_error: None, ..pre }).starting_both(
                            flag_or(audio, pre.config.audio_default),
                            layout,
                        )
                        &&& out == StepView::PrepareOutput
                    },
                }
            }
        }
    }
}

/// The place for the files is known: names are chosen and the recorders started.
pub open spec fn both_start_run(
    pre: RecView,
    site: SiteView,
    calls: Seq<PortCall>,
    post: RecView,
    out: StepView,
) -> bool {
    match site.failed {
        Some(e) => calls.len() == 0 && start_failed(
            pre,
            MachineCode::IoError,
            "cannot create output_dir: "@ + e,
            post,
            out,
        ),
        None => {
            &&& calls.len() >= 1
            &&& calls[0] matches PortCall::Now { time }
            &&& exists|allocated: Result<BothFiles, PortError>|
                {
                    &&& #[trigger] both_allocation(
                        allocated,
                        pre.config.output_dir,
                        time,
                        site.taken,
                    )
                    &&& both_named_run(pre, allocated, site.cwd, calls.skip(1), post, out)
                }
        },
    }
}

/// File names were looked for: with them, the recorders are spawned.
pub open spec fn both_named_run(
    pre: RecView,
    allocated: Result<BothFiles, PortError>,
    cwd: Seq<char>,
    calls: Seq<PortCall>,
    post: RecView,
    out: StepView,
) -> bool {
    match allocated {
        Err(e) => calls.len() == 0 && start_failed(
            pre,
            MachineCode::IoError,
            "cannot allocate output path: "@ + e.text(),
            post,
            out,
        ),
        Ok(f) => both_spawned_run(
            pre,
            BothView {
                layout: pre.pending->layout,
                a: absolute_path(f.a@, cwd),
                b: absolute_path(f.b@, cwd),
            },
            absolute_path(f.path@, cwd),
            calls,
            post,
            out,
        ),
    }
}

/// The recorders are spawned, each in a process group of its own; only the first
/// records audio. Where the second cannot be spawned the first is ended.
pub open spec fn both_spawned_run(
    pre: RecView,
    files: BothView,
    path: Seq<char>,
    calls: Seq<PortCall>,
    post: RecView,
    out: StepView,
) -> bool {
    let unnamed = RecView { output_path: None, started_at: None, ..pre };
    &&& calls.len() >= 1
    &&& calls[0] matches PortCall::Spawn { who: w0, argv: v0, new_group: g0, failed: f0 }
    &&& v0 == both_argv(files.layout.primary.name, pre.audio, files.a)
    &&& g0
    &&& match f0 {
        Some(e) => calls.len() == 1 && start_failed(
            unnamed,
            MachineCode::SpawnFailed,
            "failed to spawn wf-recorder: "@ + e,
            post,
            out,
        ),
        None => {
            &&& calls.len() >= 2
            &&& calls[1] matches PortCall::Spawn { who: w1, argv: v1, new_group: g1, failed: f1 }
            &&& v1 == both_argv(files.layout.secondary.name, false, files.b)
            &&& g1
            &&& match f1 {
                Some(e) => recorder_run(calls.skip(2), w0) && start_failed(
                    unnamed,
                    MachineCode::SpawnFailed,
                    "failed to spawn wf-recorder: "@ + e,
                    post,
                    out,
                ),
                None => {
                    &&& calls.len() >= 3
                    &&& calls[2] matches PortCall::Now { time }
                    &&& both_settled_run(
                        pre.recording_both(Pair { a: w0, b: w1 }, files, path, time),
                        calls.skip(3),
                        post,
                        out,
                    )
                },
            }
        },
    }
}

/// Neither of two looks found a recorder gone.
pub open spec fn both_alive(calls: Seq<PortCall>, pair: Pair, at: int) -> bool {
    &&& calls.len() >= at + 2
    &&& calls[at] == (PortCall::TryWait { who: pair.a, answer: Ok(None) })
    &&& calls[at + 1] == (PortCall::TryWait { who: pair.b, answer: Ok(None) })
}

/// The recorders are running: their first exit is looked for, and the start is
/// notified where that is wanted.
pub open spec fn both_settled_run(
    pre: RecView,
    calls: Seq<PortCall>,
    post: RecView,
    out: StepView,
) -> bool {
    &&& calls.len() >= 2
    &&& calls[0] == (PortCall::Sleep { millis: 200 })
    &&& if both_alive(calls, pre.pair->0, 1) {
        &&& post == pre
        &&& out == StepView::Done(
            ResultView::done(started_text(pre.capture_output, "recording started"@)),
        )
        &&& if pre.notify_start && pre.config.notify && pre.config.notify_on_start_cli {
            &&& calls.len() == 4
            &&& calls[3] matches PortCall::Notify { title, body, failed: _ }
            &&& title == notify_title()
            &&& body == started_text(pre.capture_output, "Recording started"@)
        } else {
            calls.len() == 3
        }
    } else {
        both_poll_run(pre, calls.skip(1), post, Some(out))
    }
}

// ---------------------------------------------------------------------------
// A recorder that is gone
// ---------------------------------------------------------------------------

/// The message when one of two recorders is gone.
pub open spec fn lost_message(
    name: Seq<char>,
    status: ExitStatus,
    both: BothView,
    stderr: Seq<char>,
) -> Seq<char> {
    with_stderr(
        "recording failed: unexpected exit of the recorder for "@ + name + " ("@ + status.text()
            + ")"@ + both.kept(),
        stderr,
    )
}

/// One of two recorders is gone, the primary one or the other, and its peer is
/// ended; where that cannot be told, both are.
pub open spec fn peer_ended(
    both: BothView,
    pair: Pair,
    primary: bool,
    looked: Result<Option<ExitStatus>, Seq<char>>,
    calls: Seq<PortCall>,
    message: Seq<char>,
) -> bool {
    let (gone, peer, name) = if primary {
        (pair.a, pair.b, both.layout.primary.name)
    } else {
        (pair.b, pair.a, both.layout.secondary.name)
    };
    match looked {
        Ok(Some(status)) => {
            &&& calls.len() >= 1
            &&& calls[0] is Stderr && calls[0]->Stderr_who == gone
            &&& recorder_run(calls.skip(1), peer)
            &&& message == lost_message(name, status, both, calls[0]->Stderr_text)
        },
        Ok(None) => false,
        Err(e) => {
            &&& end_pair_run(calls, pair)
            &&& message == "recorder poll failed: "@ + e + both.kept()
        },
    }
}

/// One of two recorders is gone: nothing is composed.
pub open spec fn lost_run(
    pre: RecView,
    primary: bool,
    looked: Result<Option<ExitStatus>, Seq<char>>,
    calls: Seq<PortCall>,
    post: RecView,
    out: Option<StepView>,
) -> bool {
    exists|k: int, message: Seq<char>|
        {
            &&& 0 <= k <= calls.len()
            &&& #[trigger] peer_ended(
                pre.both->0,
                pre.pair->0,
                primary,
                looked,
                calls.take(k),
                message,
            )
            &&& told(pre.config.notify, message, calls.skip(k))
            &&& post == pre.over().with_error(message)
            &&& out == Some(StepView::Done(ResultView::failed(MachineCode::IoError, message)))
        }
}

/// Both recorders are looked at while they should be running.
pub open spec fn both_poll_run(
    pre: RecView,
    calls: Seq<PortCall>,
    post: RecView,
    out: Option<StepView>,
) -> bool {
    let pair = pre.pair->0;
    &&& calls.len() >= 1
    &&& calls[0] matches PortCall::TryWait { who: w0, answer: a }
    &&& w0 == pair.a
    &&& if a == Ok::<Option<ExitStatus>, Seq<char>>(None) {
        &&& calls.len() >= 2
        &&& calls[1] matches PortCall::TryWait { who: w1, answer: b }
        &&& w1 == pair.b
        &&& if b == Ok::<Option<ExitStatus>, Seq<char>>(None) {
            calls.len() == 2 && post == pre && out is None
        } else {
            lost_run(pre, false, b, calls.skip(2), post, out)
        }
    } else {
        lost_run(pre, true, a, calls.skip(1), post, out)
    }
}

// ---------------------------------------------------------------------------
// Stopping
// ---------------------------------------------------------------------------

/// Both recorders have ended, and what they wrote to stderr was taken.
pub open spec fn both_stopped(
    pre: RecView,
    calls: Seq<PortCall>,
    post: RecView,
    out: StepView,
) -> bool {
    &&& calls.len() == 2
    &&& calls[0] is Stderr && calls[0]->Stderr_who == pre.pair->0.a
    &&& calls[1] is Stderr && calls[1]->Stderr_who == pre.pair->0.b
    &&& post == pre.both_ended(joined_stderr(calls[0]->Stderr_text, calls[1]->Stderr_text))
    &&& out == StepView::CheckTemps
}

/// Stopping two recorders: SIGINT, then SIGTERM, then SIGKILL to the process
/// groups of those that still run, each after the time allowed for the one before.
pub open spec fn both_stop_run(
    pre: RecView,
    calls: Seq<PortCall>,
    post: RecView,
    out: StepView,
) -> bool {
    let pair = pre.pair->0;
    let a = reported(calls[4]->WaitTimeout_answer);
    let b = reported(calls[6]->WaitTimeout_answer);
    &&& calls.len() >= 7
    &&& calls[0] matches PortCall::Id { who, pid }
    &&& who == pair.a
    &&& signal_pair_run(calls.subrange(1, 3), pair, None, None, Signal::Interrupt)
    &&& wait_pair_run(calls.subrange(3, 7), pair, None, None, pre.config.stop_timeout_ms, a, b)
    &&& {
        let asked = RecView {
            stopping_pid: Some(pid),
            stop_sent_signals: seq![Signal::Interrupt],
            ..pre
        };
        if a is Some && b is Some {
            both_stopped(asked, calls.skip(7), post, out)
        } else {
            both_terminate_run(asked, a, b, calls.skip(7), post, out)
        }
    }
}

/// Stopping recorders that SIGINT did not stop.
pub open spec fn both_terminate_run(
    pre: RecView,
    a: Option<ExitStatus>,
    b: Option<ExitStatus>,
    calls: Seq<PortCall>,
    post: RecView,
    out: StepView,
) -> bool {
    let n = running(a) + running(b);
    let asked = RecView {
        stop_sent_signals: seq![Signal::Interrupt, Signal::Terminate],
        ..pre
    };
    &&& calls.len() >= 2 * n + 2
    &&& signal_pair_run(calls.take(n), pre.pair->0, a, b, Signal::Terminate)
    &&& exists|a2: Option<ExitStatus>, b2: Option<ExitStatus>|
        {
            &&& #[trigger] wait_pair_run(
                calls.subrange(n, 2 * n + 2),
                pre.pair->0,
                a,
                b,
                pre.config.stop_term_timeout_ms,
                a2,
                b2,
            )
            &&& if a2 is Some && b2 is Some {
                both_stopped(asked, calls.skip(2 * n + 2), post, out)
            } else {
                both_kill_run(asked, a2, b2, calls.skip(2 * n + 2), post, out)
            }
        }
}

/// Stopping recorders that SIGTERM did not stop: the recording is given up.
pub open spec fn both_kill_run(
    pre: RecView,
    a: Option<ExitStatus>,
    b: Option<ExitStatus>,
    calls: Seq<PortCall>,
    post: RecView,
    out: StepView,
) -> bool {
    let n = running(a) + running(b);
    let files = pre.both->0;
    &&& calls.len() >= n
    &&& signal_pair_run(calls.take(n), pre.pair->0, a, b, Signal::Kill)
    &&& exists|k: int|
        {
            &&& n <= k
            &&& k + 2 <= calls.len()
            &&& #[trigger] reap_pair_run(calls.subrange(n, k), pre.pair->0, a, b)
            &&& calls[k] is Stderr && calls[k]->Stderr_who == pre.pair->0.a
            &&& calls[k + 1] is Stderr && calls[k + 1]->Stderr_who == pre.pair->0.b
            &&& given_up_run(
                pre,
                stop_timed_out(
                    Some(files.a + ", "@ + files.b),
                    joined_stderr(calls[k]->Stderr_text, calls[k + 1]->Stderr_text),
                ),
                calls.skip(k + 2),
                post,
                out,
            )
        }
}

// ---------------------------------------------------------------------------
// Composing
// ---------------------------------------------------------------------------

/// The recording is over and nothing came of it.
pub open spec fn both_failed(
    pre: RecView,
    code: MachineCode,
    message: Seq<char>,
    calls: Seq<PortCall>,
    post: RecView,
    out: StepView,
) -> bool {
    &&& post == pre.over().with_error(message)
    &&& out == StepView::Done(ResultView::failed(code, message))
    &&& told(pre.config.notify, message, calls)
}

/// The message when a session with two recorders was shut down.
pub open spec fn quit_message(both: BothView, stderr: Seq<char>) -> Seq<char> {
    with_stderr("recording not composed: the session was shut down"@ + both.kept(), stderr)
}

/// The two recorders have been asked to stop because the session is shut down:
/// their recordings stay as they are, and nothing is composed.
pub open spec fn both_quit_end(
    stopped: RecView,
    asked: StepView,
    calls: Seq<PortCall>,
    post: RecView,
    out: StepView,
) -> bool {
    if asked == StepView::CheckTemps {
        both_failed(
            stopped,
            MachineCode::IoError,
            quit_message(stopped.both->0, stopped.pending->children),
            calls,
            post,
            out,
        )
    } else {
        calls.len() == 0 && post == stopped && out == asked
    }
}

/// Shutting down while two monitors are recorded: both recorders are stopped as
/// by a stop, and nothing is composed.
pub open spec fn both_quit_run(
    pre: RecView,
    calls: Seq<PortCall>,
    post: RecView,
    out: StepView,
) -> bool {
    exists|k: int, stopped: RecView, asked: StepView|
        {
            &&& 0 <= k <= calls.len()
            &&& #[trigger] both_stop_run(pre, calls.take(k), stopped, asked)
            &&& both_quit_end(stopped, asked, calls.skip(k), post, out)
        }
}

/// Why one of the two recordings cannot be used.
pub open spec fn temp_failure(path: Seq<char>, file: Result<bool, Seq<char>>) -> Option<Seq<char>> {
    match file {
        Err(e) => Some("cannot stat output file: "@ + e),
        Ok(false) => Some("recording failed: output missing or empty ("@ + path + ")"@),
        Ok(true) => None,
    }
}

/// The two recordings were looked at: if both are there they are composed.
pub open spec fn both_temps_run(
    pre: RecView,
    a: Result<bool, Seq<char>>,
    b: Result<bool, Seq<char>>,
    calls: Seq<PortCall>,
    post: RecView,
    out: StepView,
) -> bool {
    let files = pre.both->0;
    let failed = match temp_failure(files.a, a) {
        Some(m) => Some(m),
        None => temp_failure(files.b, b),
    };
    match failed {
        Some(m) => both_failed(
            pre,
            MachineCode::IoError,
            with_stderr(m + files.kept(), pre.pending->children),
            calls,
            post,
            out,
        ),
        None => compose_run(pre, calls, post, out),
    }
}

/// The two recordings are composed, and that is waited for.
pub open spec fn compose_run(
    pre: RecView,
    calls: Seq<PortCall>,
    post: RecView,
    out: StepView,
) -> bool {
    let files = pre.both->0;
    &&& calls.len() >= 1
    &&& calls[0] matches PortCall::Spawn { who, argv, new_group, failed }
    &&& argv == compose_argv(files.layout, pre.audio, files.a, files.b, pre.output_path->0)
    &&& new_group
    &&& match failed {
        Some(e) => both_failed(
            pre,
            MachineCode::SpawnFailed,
            "failed to spawn ffmpeg: "@ + e + files.kept(),
            calls.skip(1),
            post,
            out,
        ),
        None => {
            &&& calls.len() >= 2
            &&& calls[1] matches PortCall::Wait { who: w1, answer }
            &&& w1 == who
            &&& match answer {
                Ok(status) => {
                    &&& calls.len() == 3
                    &&& calls[2] matches PortCall::Stderr { who: w2, text }
                    &&& w2 == who
                    &&& post == (RecView {
                        pending: PendingView::BothFinal { composed: status, composer: text },
                        ..pre
                    })
                    &&& out == StepView::CheckOutput
                },
                Err(e) => lost_composer_run(pre, who, e, calls.skip(2), post, out),
            }
        },
    }
}

/// The program `who` that composes was ended because it could not be waited for.
pub open spec fn lost_composer_run(
    pre: RecView,
    who: int,
    e: Seq<char>,
    calls: Seq<PortCall>,
    post: RecView,
    out: StepView,
) -> bool {
    exists|k: int|
        {
            &&& 0 <= k <= calls.len()
            &&& #[trigger] recorder_run(calls.take(k), who)
            &&& both_failed(
                pre,
                MachineCode::IoError,
                "ffmpeg wait failed: "@ + e + pre.both->0.kept(),
                calls.skip(k),
                post,
                out,
            )
        }
}

/// Why the video does not count as a success.
pub open spec fn compose_failure(
    status: ExitStatus,
    file: Result<bool, Seq<char>>,
    both: BothView,
    path: Seq<char>,
    stderr: Seq<char>,
) -> Option<Seq<char>> {
    if status != ExitStatus::Code(0) {
        Some(with_stderr("composing failed: ffmpeg "@ + status.text() + both.kept(), stderr))
    } else {
        match file {
            Err(e) => Some(
                with_stderr("cannot stat output file: "@ + e + both.kept(), stderr),
            ),
            Ok(false) => Some(
                with_stderr(
                    "composing failed: output missing or empty ("@ + path + ")"@ + both.kept(),
                    stderr,
                ),
            ),
            Ok(true) => None,
        }
    }
}

/// The video was looked at: it is a success if composing went well and it is not
/// empty. Only then the recordings are discarded and the path goes on the
/// clipboard.
pub open spec fn both_finish_run(
    pre: RecView,
    file: Result<bool, Seq<char>>,
    calls: Seq<PortCall>,
    post: RecView,
    out: ResultView,
) -> bool {
    let status = pre.pending->composed;
    let path = pre.output_path->0;
    let files = pre.both->0;
    let over = RecView { last_child_exit: Some(status), ..pre.over() };
    match compose_failure(status, file, files, path, pre.pending->composer) {
        Some(message) => {
            &&& post == over.with_error(message)
            &&& out == ResultView::failed(MachineCode::IoError, message)
            &&& told(pre.config.notify, message, calls)
        },
        None => {
            &&& post == (RecView {
                last_success_path: Some(path),
                last_error: None,
                discard: seq![files.a, files.b],
                ..over
            })
            &&& saved_run(pre.config, path, status, calls, out)
        },
    }
}

} // verus!
