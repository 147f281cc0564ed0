//! Laws of a session from command to command: that what was asked for is what is
//! recorded, how long a stop waits, and who is told of what.

use vstd::prelude::*;
use vstd::string::*;

use crate::audio_laws::{ends_in, says_something};
use crate::both::{
    both_named_run, both_run, both_stop_run, both_temps_run, both_terminate_run, compose_failure, lost_message, quit_message, BothView,
};
use crate::compose_laws::{each_monitor_has_its_recorder, given, layout_is_of_the_outputs};
use crate::dual::{both_allocation, joined_stderr, reap_pair_run, BothFiles};
use crate::output::path_allocation;
use crate::output_laws::{
    a_recording_is_called_by_its_time, has_part, lies_in, stderr_stands_behind_the_message,
    the_files_of_both_belong_together, the_output_named_is_captured, the_rate_asked_for_is_in_force,
    the_recorder_is_told_what_to_record, try_text,
};
use crate::outputs::OutputView;
use crate::ports::{ExitStatus, PortError, Signal, Timestamp};
use crate::reap::{killed_run, look_run, recorder_run, slurp_run};
use crate::session::{
    begin_run, check_run, finish_failure, fullscreen_run, named_run, output_run, saved_run,
    selected_run, start_run, stop_run, stop_timed_out, RecView, SiteView, StepView,
};
use crate::status::{MachineCode, ResultView, State};
use crate::text::{decimal, trim_of};
use crate::trace::PortCall;

verus! {

// ---------------------------------------------------------------------------
// Starting
// ---------------------------------------------------------------------------

/// `path` is `name` in the directory `dir`, which stands below `cwd` unless it
/// starts at the root.
pub open spec fn is_file_of(
    path: Seq<char>,
    dir: Seq<char>,
    cwd: Seq<char>,
    name: Seq<char>,
) -> bool {
    exists|local: Seq<char>|
        {
            &&& #[trigger] lies_in(local, dir, name)
            &&& if local.len() > 0 && local[0] == '/' {
                path == local
            } else {
                lies_in(path, cwd, local)
            }
        }
}

/// Once one recorder runs, it is the one that was started: told to write into a new
/// file of the output directory, which is the file of the session; told the region,
/// or else the output and the rate; and told to record audio exactly if the session
/// has audio. What was asked for stays with the session.
pub proof fn the_recorder_started_is_the_one_asked_for(
    pre: RecView,
    site: SiteView,
    calls: Seq<PortCall>,
    post: RecView,
    out: StepView,
) -> (found: (Seq<char>, int))
    requires
        start_run(pre, site, calls, post, out),
        post.state == State::Recording,
        pre.state != State::Recording,
    ensures
        calls.len() >= 3 && calls[0] is Now && calls[1] is Spawn && calls[2] is Now,
        calls[1]->Spawn_new_group,
        post.recorder == Some(calls[1]->Spawn_who),
        post.started_at == Some(calls[2]->time),
        post.output_path == Some(calls[1]->Spawn_argv.last()),
        is_file_of(
            post.output_path->0,
            pre.config.output_dir,
            site.cwd,
            "rec-"@ + found.0 + try_text(found.1) + ".mp4"@,
        ),
        ({
            let argv = calls[1]->Spawn_argv;
            let geometry = pre.pending->geometry;
            let output = pre.pending->output;
            let fps = pre.pending->fps;
            &&& argv[0] == "wf-recorder"@
            &&& argv[argv.len() - 2] == "-f"@
            &&& geometry is Some ==> given(argv, "-g"@, geometry->0)
            &&& geometry is None ==> says_something(output) && given(
                argv,
                "-o"@,
                trim_of(output->0),
            )
            &&& geometry is None && fps is Some && fps->0 > 0 ==> given(
                argv,
                "-r"@,
                decimal(fps->0 as nat),
            )
            &&& pre.audio ==> argv[argv.len() - 3] == "-a"@
            &&& argv.len() == 5 + (if geometry is None && fps is Some && fps->0 > 0 {
                2int
            } else {
                0
            }) + (if pre.audio {
                1int
            } else {
                0
            })
        }),
        post.audio == pre.audio,
        post.capture_mode == pre.capture_mode,
        post.capture_output == pre.capture_output,
        post.config == pre.config,
{
    let time = calls[0]->time;
    let allocated = choose|allocated: Result<String, PortError>|
        {
            &&& #[trigger] path_allocation(allocated, pre.config.output_dir, time, site.taken)
            &&& named_run(pre, allocated, site.cwd, calls.skip(1), post, out)
        };
    let rest = calls.skip(1);
    assert(rest[0] == calls[1]);
    assert(rest[1] == calls[2]);
    let p = allocated->Ok_0;
    let found = a_recording_is_called_by_its_time(p, pre.config.output_dir, time, site.taken);
    the_recorder_is_told_what_to_record(
        pre.pending->geometry,
        pre.audio,
        crate::ports::absolute_path(p@, site.cwd),
        pre.pending->output,
        pre.pending->fps,
    );
    assert(lies_in(
        p@,
        pre.config.output_dir,
        "rec-"@ + found.0 + try_text(found.1) + ".mp4"@,
    ));
    found
}

/// A region is recorded as it was selected: the recorder is told what the selector
/// wrote, without white space around it, and audio as the start asked for, or else
/// as the configuration has it.
pub proof fn the_region_selected_is_recorded(
    pre: RecView,
    audio: Option<bool>,
    notify_start: bool,
    first: Seq<PortCall>,
    selecting: RecView,
    status: ExitStatus,
    second: Seq<PortCall>,
    starting: RecView,
    site: SiteView,
    third: Seq<PortCall>,
    post: RecView,
    out: StepView,
)
    requires
        begin_run(pre, audio, notify_start, first, selecting, Ok(())),
        selected_run(selecting, status, second, starting, StepView::PrepareOutput),
        output_run(starting, site, third, post, out),
        post.state == State::Recording,
    ensures
        first.len() == 3 && first[2] is Spawn && first[2]->Spawn_argv == seq!["slurp"@],
        second[0] is Stdout && second[0]->Stdout_who == first[2]->Spawn_who,
        status == ExitStatus::Code(0),
        trim_of(second[0]->Stdout_text).len() > 0,
        third[1] is Spawn,
        given(third[1]->Spawn_argv, "-g"@, trim_of(second[0]->Stdout_text)),
        third[1]->Spawn_argv.len() == (if audio == Some(true) || (audio is None
            && pre.config.audio_default) {
            6int
        } else {
            5
        }),
        audio is Some ==> post.audio == audio->0,
        audio is None ==> post.audio == pre.config.audio_default,
        post.capture_mode == Some("region"@),
        post.capture_output is None,
        post.notify_start == notify_start,
        post.last_error is None,
{
    the_recorder_started_is_the_one_asked_for(starting, site, third, post, out);
}

/// An output is recorded as it was asked for: the recorder is told the output that
/// the start names, else the one that the configuration names, else the only one;
/// the rate that the start gives, else that of the configuration; and audio as the
/// start asked for, or else as the configuration has it.
pub proof fn the_output_asked_for_is_recorded(
    pre: RecView,
    audio: Option<bool>,
    notify_start: bool,
    output: Option<Seq<char>>,
    fps: Option<u32>,
    live: Seq<Seq<char>>,
    first: Seq<PortCall>,
    starting: RecView,
    site: SiteView,
    second: Seq<PortCall>,
    post: RecView,
    out: StepView,
)
    requires
        pre.forced_outputs is None,
        fullscreen_run(
            pre,
            audio,
            notify_start,
            output,
            fps,
            live,
            first,
            starting,
            StepView::PrepareOutput,
        ),
        output_run(starting, site, second, post, out),
        post.state == State::Recording,
    ensures
        second[1] is Spawn,
        ({
            let argv = second[1]->Spawn_argv;
            let pinned = pre.config.fullscreen_output;
            &&& says_something(output) ==> given(argv, "-o"@, trim_of(output->0))
                && post.capture_output == Some(trim_of(output->0)) && live.contains(
                trim_of(output->0),
            )
            &&& !says_something(output) && says_something(pinned) ==> given(
                argv,
                "-o"@,
                trim_of(pinned->0),
            ) && post.capture_output == Some(trim_of(pinned->0)) && live.contains(
                trim_of(pinned->0),
            )
            &&& !says_something(output) && !says_something(pinned) ==> live.len() == 1 && given(
                argv,
                "-o"@,
                trim_of(live[0]),
            ) && post.capture_output == Some(live[0])
            &&& fps is Some && fps->0 > 0 ==> given(argv, "-r"@, decimal(fps->0 as nat))
            &&& fps is None && pre.config.one_fps is Some && pre.config.one_fps->0 > 0 ==> given(
                argv,
                "-r"@,
                decimal(pre.config.one_fps->0 as nat),
            )
            &&& post.audio ==> argv[argv.len() - 3] == "-a"@
        }),
        audio is Some ==> post.audio == audio->0,
        audio is None ==> post.audio == pre.config.audio_default,
        post.capture_mode == Some("one"@),
        post.notify_start == notify_start,
        post.last_error is None,
{
    let pinned = crate::audio::cleaned(pre.config.fullscreen_output);
    the_recorder_started_is_the_one_asked_for(starting, site, second, post, out);
    the_output_named_is_captured(output, pinned, live);
    the_rate_asked_for_is_in_force(fps, pre.config.one_fps);
    if output is Some {
        crate::text::trim_is_idempotent(output->0);
    }
    if pre.config.fullscreen_output is Some {
        crate::text::trim_is_idempotent(pre.config.fullscreen_output->0);
    }
}

/// Two monitors are recorded as they stand: the one further left, or further up in
/// the same column, by the first recorder and with the audio asked for, the other
/// one by the second without. The video and both recordings go to new files of the
/// output directory.
pub proof fn both_monitors_are_recorded(
    pre: RecView,
    audio: Option<bool>,
    notify_start: bool,
    outputs: Seq<OutputView>,
    first: Seq<PortCall>,
    starting: RecView,
    site: SiteView,
    second: Seq<PortCall>,
    post: RecView,
    out: StepView,
) -> (found: (Seq<char>, int))
    requires
        pre.state == State::Idle,
        both_run(pre, audio, notify_start, outputs, first, starting, StepView::PrepareOutput),
        output_run(starting, site, second, post, out),
        post.state == State::Recording,
    ensures
        outputs.len() == 2,
        second.len() >= 4 && second[1] is Spawn && second[2] is Spawn && second[3] is Now,
        post.pair is Some && post.pair->0.a == second[1]->Spawn_who && post.pair->0.b
            == second[2]->Spawn_who,
        post.started_at == Some(second[3]->time),
        post.both is Some,
        second[1]->Spawn_argv[2] == post.both->0.layout.primary.name,
        second[2]->Spawn_argv[2] == post.both->0.layout.secondary.name,
        second[1]->Spawn_argv.last() == post.both->0.a,
        second[2]->Spawn_argv.last() == post.both->0.b,
        post.audio ==> second[1]->Spawn_argv.contains("-a"@),
        ({
            let (p, s) = (post.both->0.layout.primary, post.both->0.layout.secondary);
            let (x, y) = (outputs[0], outputs[1]);
            &&& (p.name == x.name && s.name == y.name) || (p.name == y.name && s.name == x.name)
            &&& p.x < s.x || (p.x == s.x && p.y <= s.y)
        }),
        post.output_path is Some,
        is_file_of(
            post.output_path->0,
            pre.config.output_dir,
            site.cwd,
            "rec-"@ + found.0 + try_text(found.1) + ".mp4"@,
        ),
        is_file_of(
            post.both->0.a,
            pre.config.output_dir,
            site.cwd,
            ".record-ui-both-"@ + found.0 + try_text(found.1) + "-A.mkv"@,
        ),
        is_file_of(
            post.both->0.b,
            pre.config.output_dir,
            site.cwd,
            ".record-ui-both-"@ + found.0 + try_text(found.1) + "-B.mkv"@,
        ),
        audio is Some ==> post.audio == audio->0,
        audio is None ==> post.audio == pre.config.audio_default,
        post.capture_mode == Some("both"@),
        post.capture_output == Some(
            post.both->0.layout.primary.name + "+"@ + post.both->0.layout.secondary.name,
        ),
        post.notify_start == notify_start,
{
    let time = second[0]->time;
    let allocated = choose|allocated: Result<BothFiles, PortError>|
        {
            &&& #[trigger] both_allocation(
                allocated,
                starting.config.output_dir,
                time,
                site.taken,
            )
            &&& both_named_run(starting, allocated, site.cwd, second.skip(1), post, out)
        };
    let rest = second.skip(1);
    assert(rest[0] == second[1]);
    let f = allocated->Ok_0;
    let dir = pre.config.output_dir;
    let found = the_files_of_both_belong_together(f, dir, time, site.taken);
    let files = BothView {
        layout: starting.pending->layout,
        a: crate::ports::absolute_path(f.a@, site.cwd),
        b: crate::ports::absolute_path(f.b@, site.cwd),
    };
    let path = crate::ports::absolute_path(f.path@, site.cwd);
    layout_is_of_the_outputs(outputs);
    each_monitor_has_its_recorder(starting, files, path, rest, post, out);
    assert(rest[0]->Spawn_failed is None);
    assert(rest[1] == second[2]);
    assert(rest[2] == second[3]);
    assert(lies_in(f.path@, dir, "rec-"@ + found.0 + try_text(found.1) + ".mp4"@));
    assert(lies_in(f.a@, dir, ".record-ui-both-"@ + found.0 + try_text(found.1) + "-A.mkv"@));
    assert(lies_in(f.b@, dir, ".record-ui-both-"@ + found.0 + try_text(found.1) + "-B.mkv"@));
    found
}

/// The call shows a notification with that body.
pub open spec fn notifies(call: PortCall, body: Seq<char>) -> bool {
    call is Notify && call->title == "record-ui"@ && call->body == body
}

/// A start that worked is answered by the output it captures, where it captures
/// one, and notified exactly where the start, and the configuration in both its
/// settings, want that.
pub proof fn a_start_is_notified_where_wanted(
    pre: RecView,
    site: SiteView,
    calls: Seq<PortCall>,
    post: RecView,
    out: StepView,
)
    requires
        output_run(pre, site, calls, post, out),
        pre.state != State::Recording,
        post.state == State::Recording,
    ensures
        out is Done && out->Done_0.ok && out->Done_0.code == MachineCode::Success,
        post.capture_output is Some ==> out->Done_0.message == "Recording "@
            + post.capture_output->0,
        post.capture_output is None ==> out->Done_0.message == "recording started"@,
        pre.notify_start && pre.config.notify && pre.config.notify_on_start_cli ==> {
            &&& post.capture_output is Some ==> notifies(
                calls.last(),
                "Recording "@ + post.capture_output->0,
            )
            &&& post.capture_output is None ==> notifies(calls.last(), "Recording started"@)
        },
        !(pre.notify_start && pre.config.notify && pre.config.notify_on_start_cli)
            ==> calls.last() is TryWait,
{
    let time = calls[0]->time;
    let rest = calls.skip(1);
    if pre.pending is BothStart {
        let allocated = choose|allocated: Result<BothFiles, PortError>|
            {
                &&& #[trigger] both_allocation(
                    allocated,
                    pre.config.output_dir,
                    time,
                    site.taken,
                )
                &&& both_named_run(pre, allocated, site.cwd, rest, post, out)
            };
        assert(allocated is Ok);
        let last = rest.skip(3);
        assert(calls.last() == last.last());
    } else {
        let allocated = choose|allocated: Result<String, PortError>|
            {
                &&& #[trigger] path_allocation(allocated, pre.config.output_dir, time, site.taken)
                &&& named_run(pre, allocated, site.cwd, rest, post, out)
            };
        assert(allocated is Ok);
        let last = rest.skip(2);
        assert(calls.last() == last.last());
    }
}

// ---------------------------------------------------------------------------
// Stopping
// ---------------------------------------------------------------------------

/// The call is a wait for `who`, of so many milliseconds.
pub open spec fn waits_for(call: PortCall, who: int, millis: u64) -> bool {
    call is WaitTimeout && call->WaitTimeout_who == who && call->WaitTimeout_millis == millis
}

/// The call signals the process group of `who`.
pub open spec fn signals(call: PortCall, who: int, signal: Signal) -> bool {
    &&& call is Signal
    &&& call->Signal_who == who
    &&& call->Signal_group
    &&& call->Signal_signal == signal
}

/// A recorder has as long to stop as the configuration says: after SIGINT the one
/// time, after SIGTERM the other.
pub proof fn a_recorder_has_its_time_to_stop(
    pre: RecView,
    calls: Seq<PortCall>,
    post: RecView,
    out: StepView,
)
    requires
        pre.state == State::Recording,
        pre.pair is None,
        stop_run(pre, calls, post, out),
    ensures
        signals(calls[1], pre.recorder->0, Signal::Interrupt),
        waits_for(calls[2], pre.recorder->0, pre.config.stop_timeout_ms),
        post.stop_sent_signals.len() > 1 ==> signals(calls[3], pre.recorder->0, Signal::Terminate)
            && waits_for(calls[4], pre.recorder->0, pre.config.stop_term_timeout_ms),
        post.stop_sent_signals.len() > 2 ==> signals(calls[5], pre.recorder->0, Signal::Kill),
        out == StepView::CheckOutput ==> post.output_path == pre.output_path && post.pending
            is Finish && post.pending->cooperative,
{
    let rest = calls.skip(3);
    match calls[2]->WaitTimeout_answer {
        Ok(Some(_)) => {},
        _ => {
            assert(rest[0] == calls[3]);
            assert(rest[1] == calls[4]);
            match rest[1]->WaitTimeout_answer {
                Ok(Some(_)) => {},
                _ => {
                    assert(rest.skip(2)[0] == calls[5]);
                },
            }
        },
    }
}

/// Two recorders share the time that one has: the second is waited for as long as
/// is left of it.
pub proof fn two_recorders_share_their_time(
    pre: RecView,
    calls: Seq<PortCall>,
    post: RecView,
    out: StepView,
)
    requires
        both_stop_run(pre, calls, post, out),
    ensures
        signals(calls[1], pre.pair->0.a, Signal::Interrupt),
        signals(calls[2], pre.pair->0.b, Signal::Interrupt),
        calls[3] is Now && calls[5] is Now,
        waits_for(calls[4], pre.pair->0.a, pre.config.stop_timeout_ms),
        calls[6] is WaitTimeout && calls[6]->WaitTimeout_who == pre.pair->0.b,
        calls[6]->WaitTimeout_millis <= pre.config.stop_timeout_ms,
        calls[5]->time.total_nanos() <= calls[3]->time.total_nanos() ==> calls[6]->WaitTimeout_millis
            == pre.config.stop_timeout_ms,
        0 <= calls[5]->time.total_nanos() - calls[3]->time.total_nanos() < u64::MAX ==> {
            let gone = (calls[5]->time.total_nanos() - calls[3]->time.total_nanos()) / 1_000_000;
            &&& gone <= pre.config.stop_timeout_ms ==> calls[6]->WaitTimeout_millis + gone
                == pre.config.stop_timeout_ms
            &&& gone > pre.config.stop_timeout_ms ==> calls[6]->WaitTimeout_millis == 0
        },
        reported_by(calls[4]) && reported_by(calls[6]) ==> out == StepView::CheckTemps
            && post.stop_sent_signals == seq![Signal::Interrupt],
{
    let s = calls.subrange(1, 3);
    let w = calls.subrange(3, 7);
    assert(s[0] == calls[1] && s[1] == calls[2]);
    assert(w[0] == calls[3] && w[1] == calls[4] && w[2] == calls[5] && w[3] == calls[6]);
}

/// The wait reported an exit.
pub open spec fn reported_by(call: PortCall) -> bool {
    call is WaitTimeout && call->WaitTimeout_answer is Ok && call->WaitTimeout_answer->Ok_0 is Some
}

// ---------------------------------------------------------------------------
// Finishing
// ---------------------------------------------------------------------------

/// A recording that was saved is answered by its path; the path goes on the
/// clipboard exactly if the configuration wants it there, and a notification with
/// the path is shown exactly if the configuration wants one.
pub proof fn a_saved_recording_is_announced(
    pre: RecView,
    file: Result<bool, Seq<char>>,
    calls: Seq<PortCall>,
    post: RecView,
    out: ResultView,
)
    requires
        pre.pending is Finish || pre.pending is BothFinal,
        check_run(pre, file, calls, post, out),
        out.ok,
    ensures
        out.code == MachineCode::Success,
        has_part(out.message, pre.output_path->0),
        post.last_success_path == Some(pre.output_path->0),
        pre.config.copy_path <==> (exists|i: int|
            0 <= i < calls.len() && (#[trigger] calls[i]) is Copy),
        pre.config.notify <==> (exists|i: int|
            0 <= i < calls.len() && (#[trigger] calls[i]) is Notify),
        forall|i: int|
            0 <= i < calls.len() ==> {
                ||| (#[trigger] calls[i]) is Copy && calls[i]->Copy_text == pre.output_path->0
                ||| calls[i] is Notify && has_part(calls[i]->body, pre.output_path->0)
            },
        calls.len() <= 2,
{
    let path = pre.output_path->0;
    let n = if pre.config.copy_path {
        1int
    } else {
        0
    };
    let none = Seq::<char>::empty();
    let status = if pre.pending is BothFinal {
        pre.pending->composed
    } else {
        pre.pending->status
    };
    assert(saved_run(pre.config, path, status, calls, out));
    if status == ExitStatus::Code(0) {
        assert(out.message =~= "saved "@ + path + none);
    } else {
        assert(out.message == "saved "@ + path + (" (child "@ + status.text() + ")"@));
    }
    if pre.config.copy_path {
        assert(calls[0] is Copy);
    }
    if pre.config.notify {
        assert(calls[n] is Notify);
        let body = calls[n]->body;
        if pre.config.copy_path {
            if calls[0]->Copy_failed is Some {
                assert(body == "Saved "@ + path + "\n(clipboard warning)"@);
            } else {
                assert(body == "Saved "@ + path + "\nPath copied to clipboard"@);
            }
        } else {
            assert(body =~= "Saved "@ + path + none);
        }
    }
}

/// The text that says where the recordings are names both.
proof fn lemma_kept(head: Seq<char>, both: BothView, stderr: Seq<char>)
    ensures
        has_part(crate::output::with_stderr(head + both.kept(), stderr), both.a),
        has_part(crate::output::with_stderr(head + both.kept(), stderr), both.b),
        has_part(crate::output::with_stderr(head + both.kept(), stderr), head),
        ends_in(crate::output::with_stderr(head + both.kept(), stderr), stderr),
{
    let none = Seq::<char>::empty();
    let tail = if stderr.len() == 0 {
        none
    } else {
        "; stderr: "@ + stderr
    };
    let said = crate::output::with_stderr(head + both.kept(), stderr);
    stderr_stands_behind_the_message(head + both.kept(), stderr);
    assert(said =~= none + head + (both.kept() + tail));
    assert(said =~= (head + " (recordings kept: "@) + both.a + (", "@ + both.b + ")"@ + tail));
    assert(said =~= (head + " (recordings kept: "@ + both.a + ", "@) + both.b + (")"@ + tail));
}

/// What stands before the stderr of a child is in the message.
proof fn lemma_head(head: Seq<char>, stderr: Seq<char>)
    ensures
        has_part(crate::output::with_stderr(head, stderr), head),
        ends_in(crate::output::with_stderr(head, stderr), stderr),
{
    let none = Seq::<char>::empty();
    let tail = if stderr.len() == 0 {
        none
    } else {
        "; stderr: "@ + stderr
    };
    stderr_stands_behind_the_message(head, stderr);
    assert(crate::output::with_stderr(head, stderr) =~= none + head + tail);
}

proof fn lemma_finish_failure(
    status: ExitStatus,
    cooperative: bool,
    stderr: Seq<char>,
    path: Seq<char>,
    file: Result<bool, Seq<char>>,
)
    ensures
        finish_failure(status, cooperative, stderr, path, file) matches Some(m) ==> {
            &&& ends_in(m, stderr)
            &&& file is Err ==> has_part(m, file->Err_0)
            &&& file is Ok ==> has_part(m, path)
        },
{
    let none = Seq::<char>::empty();
    match finish_failure(status, cooperative, stderr, path, file) {
        Some(m) => {
            match file {
                Err(e) => {
                    let head = "cannot stat output file: "@ + e;
                    lemma_head(head, stderr);
                    assert(head =~= "cannot stat output file: "@ + e + none);
                    crate::output_laws::lemma_part_of_part(m, head, e);
                },
                Ok(false) => {
                    let head = "recording failed: output missing or empty ("@ + path + ")"@;
                    lemma_head(head, stderr);
                    crate::output_laws::lemma_part_of_part(m, head, path);
                },
                Ok(true) => {
                    let start = "recording failed: unexpected child exit ("@ + status.text()
                        + "), path="@;
                    let head = start + path;
                    lemma_head(head, stderr);
                    assert(head =~= start + path + none);
                    crate::output_laws::lemma_part_of_part(m, head, path);
                },
            }
        },
        None => {},
    }
}

proof fn lemma_compose_failure(
    status: ExitStatus,
    file: Result<bool, Seq<char>>,
    both: BothView,
    path: Seq<char>,
    stderr: Seq<char>,
)
    ensures
        compose_failure(status, file, both, path, stderr) matches Some(m) ==> {
            &&& ends_in(m, stderr)
            &&& has_part(m, both.a)
            &&& has_part(m, both.b)
            &&& status != ExitStatus::Code(0) ==> has_part(m, status.text())
            &&& status == ExitStatus::Code(0) && file is Err ==> has_part(m, file->Err_0)
            &&& status == ExitStatus::Code(0) && file is Ok ==> has_part(m, path)
        },
{
    let none = Seq::<char>::empty();
    match compose_failure(status, file, both, path, stderr) {
        Some(m) => {
            if status != ExitStatus::Code(0) {
                let head = "composing failed: ffmpeg "@ + status.text();
                lemma_kept(head, both, stderr);
                assert(head =~= "composing failed: ffmpeg "@ + status.text() + none);
                crate::output_laws::lemma_part_of_part(m, head, status.text());
            } else if file is Err {
                let head = "cannot stat output file: "@ + file->Err_0;
                lemma_kept(head, both, stderr);
                assert(head =~= "cannot stat output file: "@ + file->Err_0 + none);
                crate::output_laws::lemma_part_of_part(m, head, file->Err_0);
            } else {
                let head = "composing failed: output missing or empty ("@ + path + ")"@;
                lemma_kept(head, both, stderr);
                crate::output_laws::lemma_part_of_part(m, head, path);
            }
        },
        None => {},
    }
}

/// A recording that failed is answered by why, which is the error to show, and is
/// notified exactly if the configuration wants notifications. What the child wrote
/// to stderr stands at the end of it; what went wrong with the file, or the file, is
/// named.
pub proof fn a_failed_recording_is_explained(
    pre: RecView,
    file: Result<bool, Seq<char>>,
    calls: Seq<PortCall>,
    post: RecView,
    out: ResultView,
)
    requires
        pre.pending is Finish || pre.pending is BothFinal,
        check_run(pre, file, calls, post, out),
        !out.ok,
    ensures
        post.last_error == Some(out.message),
        pre.config.notify ==> calls.len() == 1 && notifies(calls[0], out.message),
        !pre.config.notify ==> calls.len() == 0,
        pre.pending is Finish ==> {
            &&& ends_in(out.message, pre.pending->stderr)
            &&& file is Err ==> has_part(out.message, file->Err_0)
            &&& file is Ok ==> has_part(out.message, pre.output_path->0)
        },
        pre.pending is BothFinal ==> {
            let composed = pre.pending->composed;
            &&& ends_in(out.message, pre.pending->composer)
            &&& has_part(out.message, pre.both->0.a)
            &&& has_part(out.message, pre.both->0.b)
            &&& composed != ExitStatus::Code(0) ==> has_part(out.message, composed.text())
            &&& composed == ExitStatus::Code(0) && file is Err ==> has_part(
                out.message,
                file->Err_0,
            )
            &&& composed == ExitStatus::Code(0) && file is Ok ==> has_part(
                out.message,
                pre.output_path->0,
            )
        },
{
    let path = pre.output_path->0;
    if pre.pending is Finish {
        lemma_finish_failure(
            pre.pending->status,
            pre.pending->cooperative,
            pre.pending->stderr,
            path,
            file,
        );
    } else {
        lemma_compose_failure(
            pre.pending->composed,
            file,
            pre.both->0,
            path,
            pre.pending->composer,
        );
    }
}

/// Where stopping needed SIGKILL, the message says so, names the file, and has what
/// the recorder wrote to stderr at its end.
pub proof fn a_killed_recording_is_explained(path: Seq<char>, stderr: Seq<char>)
    ensures
        has_part(stop_timed_out(Some(path), stderr), "SIGKILL"@),
        has_part(stop_timed_out(Some(path), stderr), path),
        ends_in(stop_timed_out(Some(path), stderr), stderr),
{
    let said =
        "stop timed out after SIGINT/SIGTERM; nuclear SIGKILL used to reap; file may be corrupt"@;
    let head = said + (" ("@ + path + ")"@);
    stderr_stands_behind_the_message(head, stderr);
    let none = Seq::<char>::empty();
    let tail = if stderr.len() == 0 {
        none
    } else {
        "; stderr: "@ + stderr
    };
    let message = stop_timed_out(Some(path), stderr);
    assert(message =~= head + tail);
    assert(message =~= (said + " ("@) + path + (")"@ + tail));
    reveal_strlit(
        "stop timed out after SIGINT/SIGTERM; nuclear SIGKILL used to reap; file may be corrupt",
    );
    reveal_strlit("SIGKILL");
    assert("SIGKILL"@ =~= said.subrange(45, 52));
    assert(message =~= said.subrange(0, 45) + "SIGKILL"@ + (said.subrange(52, said.len() as int) + (
    " ("@ + path + ")"@) + tail));
}

/// Where one of two recorders is gone, the message names its monitor and says where
/// the recordings are; so does the message of a shutdown.
pub proof fn a_lost_recorder_is_named(
    name: Seq<char>,
    status: ExitStatus,
    both: BothView,
    stderr: Seq<char>,
)
    ensures
        has_part(lost_message(name, status, both, stderr), name),
        has_part(lost_message(name, status, both, stderr), both.a),
        has_part(lost_message(name, status, both, stderr), both.b),
        ends_in(lost_message(name, status, both, stderr), stderr),
        has_part(quit_message(both, stderr), both.a),
        has_part(quit_message(both, stderr), both.b),
        ends_in(quit_message(both, stderr), stderr),
{
    let start = "recording failed: unexpected exit of the recorder for "@;
    let head = start + name + " ("@ + status.text() + ")"@;
    lemma_kept(head, both, stderr);
    assert(head =~= start + name + (" ("@ + status.text() + ")"@));
    crate::output_laws::lemma_part_of_part(lost_message(name, status, both, stderr), head, name);
    lemma_kept("recording not composed: the session was shut down"@, both, stderr);
}

// ---------------------------------------------------------------------------
// The snapshot
// ---------------------------------------------------------------------------

/// The snapshot shows the session: its state, its audio, its last error and its last
/// success; the second at which the recording started, and the milliseconds since.
pub proof fn the_snapshot_shows_the_session(v: RecView, now: Timestamp, pid: Option<u32>)
    ensures
        ({
            let s = v.status_at(now, pid);
            let runs = v.state == State::Recording || v.state == State::Stopping;
            &&& s.state == v.state
            &&& s.audio == v.audio
            &&& s.last_error == v.last_error
            &&& s.last_success_path == v.last_success_path
            &&& s.output_path == v.output_path
            &&& pid is Some ==> s.pid == pid
            &&& pid is None ==> s.pid == v.stopping_pid
            &&& v.started_at is None ==> s.started_at_unix is None && s.elapsed_ms is None
            &&& v.started_at is Some && 0 <= v.started_at->0.total_nanos() <= u64::MAX
                ==> s.started_at_unix is Some && s.started_at_unix->0
                == v.started_at->0.total_nanos() / 1_000_000_000
            &&& runs && v.started_at is Some && 0 <= now.total_nanos()
                - v.started_at->0.total_nanos() <= u64::MAX ==> s.elapsed_ms is Some
                && s.elapsed_ms->0 == (now.total_nanos() - v.started_at->0.total_nanos())
                / 1_000_000
            &&& !runs ==> s.elapsed_ms is None
        }),
{
}

// ---------------------------------------------------------------------------
// What is needed
// ---------------------------------------------------------------------------

/// The result is that a program is missing, which it names.
pub open spec fn says_missing(r: ResultView, binary: Seq<char>) -> bool {
    &&& !r.ok
    &&& r.code == MachineCode::DepMissing
    &&& r.message == "missing hard dependency: "@ + binary
}

/// Selecting a region needs the selector and the recorder: where one is missing it is
/// named, and nothing is started.
pub proof fn selecting_needs_its_programs(
    pre: RecView,
    audio: Option<bool>,
    notify_start: bool,
    calls: Seq<PortCall>,
    post: RecView,
    out: Result<(), ResultView>,
)
    requires
        pre.state == State::Idle,
        begin_run(pre, audio, notify_start, calls, post, out),
    ensures
        calls[0] is Probe && calls[0]->binary == "slurp"@,
        !calls[0]->found ==> out is Err && says_missing(out->Err_0, "slurp"@) && calls.len() == 1,
        calls[0]->found ==> calls[1] is Probe && calls[1]->binary == "wf-recorder"@,
        calls[0]->found && !calls[1]->found ==> out is Err && says_missing(
            out->Err_0,
            "wf-recorder"@,
        ) && calls.len() == 2,
        out is Ok <==> calls.len() == 3 && calls[2]->Spawn_failed is None,
        out is Err ==> post.state == State::Idle && post.last_error == Some(out->Err_0.message),
        calls.len() == 3 && calls[2]->Spawn_failed is Some ==> out->Err_0.code
            == MachineCode::SpawnFailed && ends_in(
            out->Err_0.message,
            calls[2]->Spawn_failed->0,
        ),
{
    if calls.len() == 3 && calls[2]->Spawn_failed is Some {
        let e = calls[2]->Spawn_failed->0;
        let m = "failed to spawn slurp: "@ + e;
        assert(m.skip(m.len() - e.len()) =~= e);
    }
}

/// Capturing an output needs the recorder, which is named where it is missing; an output
/// that cannot be told is refused, with the reason as the error to show.
pub proof fn capturing_needs_the_recorder(
    pre: RecView,
    audio: Option<bool>,
    notify_start: bool,
    output: Option<Seq<char>>,
    fps: Option<u32>,
    live: Seq<Seq<char>>,
    calls: Seq<PortCall>,
    post: RecView,
    out: StepView,
)
    requires
        pre.state == State::Idle,
        fullscreen_run(pre, audio, notify_start, output, fps, live, calls, post, out),
    ensures
        calls.len() == 1 && calls[0] is Probe && calls[0]->binary == "wf-recorder"@,
        !calls[0]->found ==> out is Done && says_missing(out->Done_0, "wf-recorder"@),
        out is Done ==> !out->Done_0.ok && post.state == State::Idle && post.last_error == Some(
            out->Done_0.message,
        ),
        out is Done && calls[0]->found ==> out->Done_0.code == MachineCode::Invalid,
        out is Done || out == StepView::PrepareOutput,
{
}

/// Two monitors can be recorded only if there are exactly two and it is known where they
/// stand, and only with the program that composes and the recorder.
pub proof fn both_needs_two_monitors_and_its_programs(
    pre: RecView,
    audio: Option<bool>,
    notify_start: bool,
    outputs: Seq<OutputView>,
    calls: Seq<PortCall>,
    post: RecView,
    out: StepView,
)
    requires
        pre.state == State::Idle,
        both_run(pre, audio, notify_start, outputs, calls, post, out),
    ensures
        outputs.len() != 2 ==> calls.len() == 0 && out is Done && out->Done_0.code
            == MachineCode::Invalid,
        outputs.len() != 2 ==> forall|k: int|
            0 <= k < outputs.len() ==> has_part(
                out->Done_0.message,
                (#[trigger] outputs[k]).name,
            ),
        outputs.len() == 2 ==> calls[0] is Probe && calls[0]->binary == "ffmpeg"@,
        outputs.len() == 2 && !calls[0]->found ==> out is Done && says_missing(
            out->Done_0,
            "ffmpeg"@,
        ),
        outputs.len() == 2 && calls[0]->found ==> calls[1] is Probe && calls[1]->binary
            == "wf-recorder"@,
        outputs.len() == 2 && calls[0]->found && !calls[1]->found ==> out is Done && says_missing(
            out->Done_0,
            "wf-recorder"@,
        ),
        out is Done ==> !out->Done_0.ok && post.state == State::Idle && post.last_error == Some(
            out->Done_0.message,
        ),
        out is Done || out == StepView::PrepareOutput,
{
    if outputs.len() != 2 {
        let names = crate::outputs::names_of(outputs);
        let known = crate::text::joined(names, ", "@);
        let m = out->Done_0.message;
        assert forall|k: int| 0 <= k < outputs.len() implies has_part(
            m,
            (#[trigger] outputs[k]).name,
        ) by {
            assert(names[k] == outputs[k].name);
            crate::output_laws::lemma_joined_has(names, ", "@, k);
            assert(m == "both requires exactly two monitors (known: "@ + known + ")"@);
            crate::output_laws::lemma_part_of_part(m, known, names[k]);
        }
    }
}

/// Nothing written by the selector, or nothing but white space, is giving up; so is an
/// exit other than zero. That is no failure, and the session is at rest.
pub proof fn nothing_selected_is_giving_up(
    pre: RecView,
    status: ExitStatus,
    calls: Seq<PortCall>,
    post: RecView,
    out: StepView,
)
    requires
        selected_run(pre, status, calls, post, out),
    ensures
        calls.len() == 1 && calls[0] is Stdout,
        status != ExitStatus::Code(0) || trim_of(calls[0]->Stdout_text).len() == 0 <==> out is Done,
        out is Done ==> out->Done_0.ok && out->Done_0.code == MachineCode::SlurpCancel
            && post.state == State::Idle && post.last_error == pre.last_error,
        out is Done || out == StepView::PrepareOutput,
{
}

// ---------------------------------------------------------------------------
// What is remembered of a stop
// ---------------------------------------------------------------------------

/// While a recorder is stopped its process is known; a signal that could not be sent, or
/// a wait that failed, is the error to show, and says why.
pub proof fn a_stop_remembers_what_went_wrong(
    pre: RecView,
    calls: Seq<PortCall>,
    post: RecView,
)
    requires
        pre.state == State::Recording,
        pre.pair is None,
        stop_run(pre, calls, post, StepView::CheckOutput),
    ensures
        calls[0] is Id && calls[0]->Id_who == pre.recorder->0,
        post.stopping_pid == Some(calls[0]->pid),
        calls[2]->WaitTimeout_answer is Err ==> post.last_error is Some && ends_in(
            post.last_error->0,
            calls[2]->WaitTimeout_answer->Err_0,
        ),
        calls[2]->WaitTimeout_answer is Ok && calls[1]->Signal_failed is Some ==> post.last_error
            is Some && ends_in(post.last_error->0, calls[1]->Signal_failed->0),
        calls[2]->WaitTimeout_answer is Ok && calls[1]->Signal_failed is None ==> post.last_error
            == pre.last_error,
        calls.last() is Stderr && calls.last()->Stderr_who == pre.recorder->0,
        post.pending is Finish && post.pending->stderr == calls.last()->Stderr_text,
{
    let rest = calls.skip(3);
    match calls[2]->WaitTimeout_answer {
        Ok(Some(_)) => {},
        _ => {
            assert(rest[2] == calls[5]);
        },
    }
    if calls[2]->WaitTimeout_answer is Err {
        let e = calls[2]->WaitTimeout_answer->Err_0;
        let m = "wait after SIGINT failed: "@ + e;
        assert(m.skip(m.len() - e.len()) =~= e);
    } else if calls[1]->Signal_failed is Some {
        let e = calls[1]->Signal_failed->0;
        let m = "SIGINT to process group failed: "@ + e;
        assert(m.skip(m.len() - e.len()) =~= e);
    }
}

/// How a recording's program exited is remembered, whether it is a success or not.
pub proof fn the_exit_is_remembered(
    pre: RecView,
    file: Result<bool, Seq<char>>,
    calls: Seq<PortCall>,
    post: RecView,
    out: ResultView,
)
    requires
        pre.pending is Finish || pre.pending is BothFinal,
        check_run(pre, file, calls, post, out),
    ensures
        pre.pending is Finish ==> post.last_child_exit == Some(pre.pending->status),
        pre.pending is BothFinal ==> post.last_child_exit == Some(pre.pending->composed),
        post.state == State::Idle && post.at_rest() && post.recorder is None && post.pair is None,
        post.audio == pre.audio && post.config == pre.config,
{
}

/// What two children wrote is kept, both of it.
pub proof fn what_both_wrote_is_kept(a: Seq<char>, b: Seq<char>)
    ensures
        has_part(joined_stderr(a, b), a),
        ends_in(joined_stderr(a, b), b),
        a.len() == 0 ==> joined_stderr(a, b) == b,
        b.len() == 0 ==> joined_stderr(a, b) == a,
{
    let all = joined_stderr(a, b);
    let none = Seq::<char>::empty();
    assert(all.skip(all.len() - b.len()) =~= b);
    if a.len() == 0 {
        assert(all =~= none + a + b);
    } else if b.len() == 0 {
        assert(all =~= none + a + none);
    } else {
        assert(all =~= none + a + ("\n"@ + b));
    }
}

/// After SIGTERM two recorders have the other time to stop, those that still run, and
/// only those are told and waited for.
pub proof fn two_recorders_have_their_time_again(
    pre: RecView,
    a: Option<ExitStatus>,
    b: Option<ExitStatus>,
    calls: Seq<PortCall>,
    post: RecView,
    out: StepView,
)
    requires
        both_terminate_run(pre, a, b, calls, post, out),
        a is None || b is None,
    ensures
        a is None ==> signals(calls[0], pre.pair->0.a, Signal::Terminate),
        a is None && b is None ==> signals(calls[1], pre.pair->0.b, Signal::Terminate) && waits_for(
            calls[3],
            pre.pair->0.a,
            pre.config.stop_term_timeout_ms,
        ) && calls[5] is WaitTimeout && calls[5]->WaitTimeout_who == pre.pair->0.b
            && calls[5]->WaitTimeout_millis <= pre.config.stop_term_timeout_ms,
        a is None && b is Some ==> waits_for(
            calls[2],
            pre.pair->0.a,
            pre.config.stop_term_timeout_ms,
        ),
        a is Some ==> signals(calls[0], pre.pair->0.b, Signal::Terminate) && calls[3] is WaitTimeout
            && calls[3]->WaitTimeout_who == pre.pair->0.b && calls[3]->WaitTimeout_millis
            <= pre.config.stop_term_timeout_ms,
{
    let n = crate::dual::running(a) + crate::dual::running(b);
    let s = calls.take(n);
    let w = calls.subrange(n, 2 * n + 2);
    let (a2, b2) = choose|a2: Option<ExitStatus>, b2: Option<ExitStatus>|
        {
            &&& #[trigger] crate::dual::wait_pair_run(
                w,
                pre.pair->0,
                a,
                b,
                pre.config.stop_term_timeout_ms,
                a2,
                b2,
            )
            &&& if a2 is Some && b2 is Some {
                crate::both::both_stopped(
                    RecView {
                        stop_sent_signals: seq![Signal::Interrupt, Signal::Terminate],
                        ..pre
                    },
                    calls.skip(2 * n + 2),
                    post,
                    out,
                )
            } else {
                crate::both::both_kill_run(
                    RecView {
                        stop_sent_signals: seq![Signal::Interrupt, Signal::Terminate],
                        ..pre
                    },
                    a2,
                    b2,
                    calls.skip(2 * n + 2),
                    post,
                    out,
                )
            }
        };
    assert(s[0] == calls[0]);
    if a is None && b is None {
        assert(s[1] == calls[1]);
        assert(w[1] == calls[3] && w[3] == calls[5]);
    } else if a is None {
        assert(w[1] == calls[2]);
    } else {
        assert(w[2] == calls[3]);
    }
}

/// Both recordings are looked at before they are composed: one that is missing or empty
/// is named, what went wrong is told, and both are kept.
pub proof fn a_missing_recording_is_named(
    pre: RecView,
    a: Result<bool, Seq<char>>,
    b: Result<bool, Seq<char>>,
    calls: Seq<PortCall>,
    post: RecView,
    out: StepView,
)
    requires
        both_temps_run(pre, a, b, calls, post, out),
        a != Ok::<bool, Seq<char>>(true) || b != Ok::<bool, Seq<char>>(true),
    ensures
        out is Done && !out->Done_0.ok && out->Done_0.code == MachineCode::IoError,
        has_part(out->Done_0.message, pre.both->0.a),
        has_part(out->Done_0.message, pre.both->0.b),
        ends_in(out->Done_0.message, pre.pending->children),
        a is Err ==> has_part(out->Done_0.message, a->Err_0),
        a == Ok::<bool, Seq<char>>(true) && b is Err ==> has_part(out->Done_0.message, b->Err_0),
        post.last_error == Some(out->Done_0.message),
{
    let files = pre.both->0;
    let none = Seq::<char>::empty();
    let stderr = pre.pending->children;
    let (file, path) = if a != Ok::<bool, Seq<char>>(true) {
        (a, files.a)
    } else {
        (b, files.b)
    };
    let head = match file {
        Err(e) => "cannot stat output file: "@ + e,
        _ => "recording failed: output missing or empty ("@ + path + ")"@,
    };
    lemma_kept(head, files, stderr);
    if file is Err {
        assert(head =~= "cannot stat output file: "@ + file->Err_0 + none);
        crate::output_laws::lemma_part_of_part(out->Done_0.message, head, file->Err_0);
    }
}

/// Where both recordings are there they are composed, and how that ended is looked at
/// together with the video.
pub proof fn composing_is_waited_for(
    pre: RecView,
    calls: Seq<PortCall>,
    post: RecView,
    out: StepView,
)
    requires
        both_temps_run(pre, Ok(true), Ok(true), calls, post, out),
    ensures
        calls[0] is Spawn && calls[0]->Spawn_new_group,
        calls[0]->Spawn_failed is Some ==> out is Done && out->Done_0.code
            == MachineCode::SpawnFailed,
        calls[0]->Spawn_failed is None ==> calls[1] is Wait && calls[1]->Wait_who
            == calls[0]->Spawn_who,
        calls[0]->Spawn_failed is None && calls[1]->Wait_answer is Ok ==> {
            &&& out == StepView::CheckOutput
            &&& post.pending is BothFinal
            &&& post.pending->composed == calls[1]->Wait_answer->Ok_0
            &&& post.pending->composer == calls[2]->Stderr_text
            &&& post.output_path == pre.output_path && post.both == pre.both
        },
        calls[0]->Spawn_failed is None && calls[1]->Wait_answer is Err ==> out is Done
            && !out->Done_0.ok,
{
    if calls[0]->Spawn_failed is None && calls[1]->Wait_answer is Err {
        let rest = calls.skip(2);
        let who = calls[0]->Spawn_who;
        let e = calls[1]->Wait_answer->Err_0;
        assert(crate::both::lost_composer_run(pre, who, e, rest, post, out));
    }
}

// ---------------------------------------------------------------------------
// Ending in haste
// ---------------------------------------------------------------------------

/// A recorder that is ended in haste is interrupted, then told to end, then killed, with
/// a tenth of a second after each of the first two; a child that exits is told no more.
pub proof fn a_recorder_is_ended_step_by_step(calls: Seq<PortCall>, who: int)
    requires
        recorder_run(calls, who),
    ensures
        signals(calls[0], who, Signal::Interrupt) && waits_for(calls[1], who, 100),
        reported_by(calls[1]) ==> calls.len() == 2,
        !reported_by(calls[1]) ==> calls.len() > 3 && signals(calls[2], who, Signal::Terminate)
            && waits_for(calls[3], who, 100),
        !reported_by(calls[1]) && reported_by(calls[3]) ==> calls.len() == 4,
        !reported_by(calls[1]) && !reported_by(calls[3]) ==> calls.len() > 5 && signals(
            calls[4],
            who,
            Signal::Kill,
        ) && calls[5] is Wait && calls[5]->Wait_who == who,
{
    if !reported_by(calls[1]) && !reported_by(calls[3]) {
        assert(calls.skip(5)[0] == calls[5]);
    }
}

/// The selector is told to end, and killed where it has not done so after half a second;
/// it alone is told, not its process group.
pub proof fn the_selector_is_ended_step_by_step(calls: Seq<PortCall>, who: int)
    requires
        slurp_run(calls, who),
    ensures
        calls[0] is Signal && calls[0]->Signal_who == who && !calls[0]->Signal_group
            && calls[0]->Signal_signal == Signal::Terminate,
        waits_for(calls[1], who, 500),
        reported_by(calls[1]) ==> calls.len() == 2,
        !reported_by(calls[1]) ==> calls.len() > 3 && calls[2] is Signal && calls[2]->Signal_who
            == who && !calls[2]->Signal_group && calls[2]->Signal_signal == Signal::Kill
            && calls[3] is Wait && calls[3]->Wait_who == who,
{
    if !reported_by(calls[1]) {
        assert(calls.skip(3)[0] == calls[3]);
    }
}

/// A child that was killed is waited for; only where that fails it is looked at instead,
/// at once and then, for a recorder, after each hundredth of a second until it is gone.
pub proof fn a_killed_child_is_reaped(calls: Seq<PortCall>, who: int, paced: bool)
    requires
        killed_run(calls, who, paced),
    ensures
        calls[0] is Wait && calls[0]->Wait_who == who,
        calls[0]->Wait_answer is Ok ==> calls.len() == 1,
        calls[0]->Wait_answer is Err ==> calls.len() >= 2 && calls[1] is TryWait
            && calls[1]->TryWait_who == who,
        calls[0]->Wait_answer is Err && calls.len() > 2 && paced ==> calls[2] == (PortCall::Sleep {
            millis: 10,
        }),
        calls[0]->Wait_answer is Err && calls.len() > 2 && !paced ==> calls[2] is TryWait,
        calls[0]->Wait_answer is Err && calls[1]->TryWait_answer is Ok
            && calls[1]->TryWait_answer->Ok_0 is Some ==> calls.len() == 2,
{
    if calls[0]->Wait_answer is Err {
        let rest = calls.skip(1);
        reveal_with_fuel(look_run, 2);
        assert(rest[0] == calls[1]);
        if calls.len() > 2 {
            assert(rest[1] == calls[2]);
            assert(rest.skip(1)[0] == calls[2]);
        }
    }
}

/// Of two recorders that were told to end, those that still ran when they were killed are
/// reaped, the first one first; the others are left alone.
pub proof fn killed_recorders_are_reaped(
    calls: Seq<PortCall>,
    pair: crate::dual::Pair,
    a: Option<ExitStatus>,
    b: Option<ExitStatus>,
)
    requires
        reap_pair_run(calls, pair, a, b),
    ensures
        a is Some && b is Some ==> calls.len() == 0,
        a is None ==> calls.len() > 0 && calls[0] is Wait && calls[0]->Wait_who == pair.a,
        a is Some && b is None ==> calls.len() > 0 && calls[0] is Wait && calls[0]->Wait_who
            == pair.b,
        b is None ==> exists|i: int|
            0 <= i < calls.len() && (#[trigger] calls[i]) is Wait && calls[i]->Wait_who == pair.b,
{
    let k = choose|k: int|
        {
            &&& 0 <= k <= calls.len()
            &&& #[trigger] crate::dual::reaped_or_gone(calls.take(k), pair.a, a)
            &&& crate::dual::reaped_or_gone(calls.skip(k), pair.b, b)
        };
    let first = calls.take(k);
    let second = calls.skip(k);
    if a is None {
        assert(first[0] == calls[0]);
    }
    if b is None {
        assert(second[0] == calls[k]);
        assert(calls[k] is Wait && calls[k]->Wait_who == pair.b);
    }
}

} // verus!
