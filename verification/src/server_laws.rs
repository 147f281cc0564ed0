//! Laws of the session server and its clients: what a request does, how it is
//! answered, and what the commands of the shell ask for.

use vstd::prelude::*;
use vstd::string::*;

use crate::audio::{
    described_inventory, listed_devices, AudioErrorView, InventoryView, PlanView, SystemAudioMode,
};
use crate::audio_laws::{ends_in, says_something};
use crate::cli::{flags_plan, is_rich, message_lines_of, FlagsView};
use crate::client::{ClientError, IoKind};
use crate::config_laws::is_name_of;
use crate::flow_laws::signals;
use crate::ipc::{request_plan, IpcCommand, RequestView, ResponseView};
use crate::lifecycle::{
    components, is_component, is_shared_tmp, program_candidates, refused_dir, DirFacts,
};
use crate::output_laws::{has_part, lies_in};
use crate::outputs::OutputView;
use crate::pactl::{listed_inventory, loaded, or_empty, printed, Listing, PactlRun};
use crate::path::is_absolute_path;
use crate::ports::Signal;
use crate::server::{
    audio_answer, dispatch_run, ends_pending, less, marks_gui, request_audio, request_result, request_run,
    shutdown_view, ServerView, WorkView,
};
use crate::session::{RecView, StepView};
use crate::status::{MachineCode, ResultView, State, StatusView};
use crate::text::{find_char, lemma_find_char, parsed_u32, split_of, trim_of};
use crate::trace::PortCall;

verus! {

// ---------------------------------------------------------------------------
// Answers
// ---------------------------------------------------------------------------

/// An answer has what the command came to, and the session as its snapshot shows it,
/// each under its own name.
pub proof fn an_answer_shows_result_and_session(r: ResultView, s: StatusView)
    ensures
        ({
            let a = ResponseView::of(r, s);
            &&& a.ok == r.ok
            &&& a.message == r.message
            &&& a.warnings == r.warnings
            &&& a.code == r.code.word()
            &&& a.audio_list is None
            &&& a.status.state == s.state.name()
            &&& a.status.output_path == s.output_path
            &&& a.status.pid == s.pid
            &&& a.status.started_at_unix == s.started_at_unix
            &&& a.status.audio == s.audio
            &&& a.status.last_error == s.last_error
            &&& a.status.last_success_path == s.last_success_path
            &&& a.status.elapsed_ms == s.elapsed_ms
            &&& a.status.capture_output == s.capture_output
            &&& a.status.capture_mode == s.capture_mode
        }),
{
}

/// Two states have two names.
pub proof fn each_state_has_its_name(a: State, b: State)
    ensures
        a.name() == b.name() ==> a == b,
{
    reveal_strlit("Idle");
    reveal_strlit("SelectingRegion");
    reveal_strlit("Starting");
    reveal_strlit("Recording");
    reveal_strlit("Stopping");
    assert("Idle"@.len() == 4 && "SelectingRegion"@.len() == 15 && "Starting"@.len() == 8
        && "Recording"@.len() == 9 && "Stopping"@.len() == 8);
    assert("Starting"@[2] == 'a' && "Stopping"@[2] == 'o');
}

/// A busy session is named by its state.
pub proof fn a_busy_session_is_named(state: State)
    ensures
        !ResultView::busy(state).ok,
        ResultView::busy(state).code == MachineCode::Busy,
        ends_in(ResultView::busy(state).message, state.name()),
{
    let m = ResultView::busy(state).message;
    assert(m.skip(m.len() - state.name().len()) =~= state.name());
}

/// A command ends well exactly if it did what it should or the user gave up; what it
/// lacks, what is busy and what does not run have codes of their own.
pub proof fn exit_codes_tell_failures_apart(c: MachineCode)
    ensures
        c.exit() == 0 <==> c == MachineCode::Success || c == MachineCode::SlurpCancel,
        c.exit() == 2 <==> c == MachineCode::Busy,
        c.exit() == 3 <==> c == MachineCode::NotRecording,
        c.exit() == 4 <==> c == MachineCode::DepMissing,
        0 <= c.exit() <= 4,
{
}

/// The inventory answers a request for it; where there is no `pactl` the answer says
/// that it is missing, and any other failure is told.
pub proof fn the_inventory_is_answered(
    found: Result<InventoryView, AudioErrorView>,
    s: StatusView,
)
    ensures
        ({
            let a = audio_answer(found, s);
            &&& a.ok <==> found is Ok
            &&& found is Ok ==> a.audio_list == Some(found->Ok_0) && a.code
                == MachineCode::Success.word()
            &&& found is Err ==> a.audio_list is None && a.message == found->Err_0.text()
            &&& found == Err::<InventoryView, AudioErrorView>(AudioErrorView::PactlMissing)
                ==> a.code == MachineCode::DepMissing.word()
            &&& found is Err && found->Err_0 is Message ==> a.code == MachineCode::IoError.word()
            &&& a.status == ResponseView::of(ResultView::done(a.message), s).status
        }),
{
}

/// A shutdown is answered as such; a stop that failed shows through, with its code and
/// its message.
pub proof fn a_shutdown_shows_how_its_stop_went(r: ResultView)
    ensures
        request_result(IpcCommand::Shutdown, r).ok <==> r.code == MachineCode::Success || r.code
            == MachineCode::SlurpCancel || r.ok,
        r.code != MachineCode::Success && r.code != MachineCode::SlurpCancel ==> {
            &&& request_result(IpcCommand::Shutdown, r).code == r.code
            &&& ends_in(request_result(IpcCommand::Shutdown, r).message, r.message)
            &&& request_result(IpcCommand::Shutdown, r).warnings == r.warnings
        },
        r.code == MachineCode::SlurpCancel ==> has_part(
            request_result(IpcCommand::Shutdown, r).message,
            r.message,
        ) && request_result(IpcCommand::Shutdown, r).code == MachineCode::Success,
        r.code == MachineCode::Success ==> request_result(IpcCommand::Shutdown, r).message
            == "shutting down"@,
        forall|cmd: IpcCommand| cmd != IpcCommand::Shutdown ==> #[trigger] request_result(cmd, r)
            == r,
{
    let m = shutdown_view(r).message;
    if r.code == MachineCode::SlurpCancel {
        assert(m == "shutting down ("@ + r.message + ")"@);
    } else if r.code != MachineCode::Success {
        assert(m.skip(m.len() - r.message.len()) =~= r.message);
    }
}

// ---------------------------------------------------------------------------
// Requests
// ---------------------------------------------------------------------------

/// The audio of a request: the plan that it brings; else everything or nothing, as its
/// switch says; else the plan of the configuration.
pub proof fn a_request_decides_on_audio(req: RequestView, configured: PlanView)
    ensures
        ({
            let plan = request_plan(req, configured);
            &&& req.audio_plan is Some ==> {
                &&& plan.system == req.audio_plan->0.system
                &&& plan.mic == req.audio_plan->0.mic
                &&& is_name_of(plan.sink, req.audio_plan->0.sink)
                &&& is_name_of(plan.app, req.audio_plan->0.app)
                &&& is_name_of(plan.mic_device, req.audio_plan->0.mic_device)
            }
            &&& req.audio_plan is None && req.audio == Some(true) ==> plan.system
                == SystemAudioMode::All && plan.sink is None && !plan.mic
            &&& req.audio_plan is None && req.audio == Some(false) ==> plan.system
                == SystemAudioMode::Off && !plan.mic
            &&& req.audio_plan is None && req.audio is None ==> plan == configured
        }),
{
}

/// A start records audio exactly if the plan in force has the sound that is played or a
/// microphone in it.
pub proof fn a_start_has_audio_where_planned(req: RequestView, rec: RecView)
    ensures
        req.audio_plan is Some ==> (request_audio(req, rec) <==> req.audio_plan->0.system
            != SystemAudioMode::Off || req.audio_plan->0.mic),
        req.audio_plan is None && req.audio is Some ==> request_audio(req, rec) == req.audio->0,
        req.audio_plan is None && req.audio is None ==> (request_audio(req, rec) <==> {
            ||| rec.config.mic_default
            ||| rec.config.system_audio is Some && rec.config.system_audio->0 != SystemAudioMode::Off
            ||| rec.config.system_audio is None && rec.config.audio_default
        }),
{
}

/// A request that asks for nothing to be done calls no port and changes nothing.
pub proof fn asking_changes_nothing(
    pre: RecView,
    req: RequestView,
    gui_clients: u32,
    outputs: Seq<OutputView>,
    calls: Seq<PortCall>,
    post: RecView,
    out: WorkView,
)
    requires
        request_run(pre, req, gui_clients, outputs, calls, post, out),
        req.cmd == IpcCommand::Ping || req.cmd == IpcCommand::Status || req.cmd
            == IpcCommand::Subscribe || req.cmd == IpcCommand::ListAudio,
    ensures
        calls.len() == 0,
        post == pre,
        out is ListAudio <==> req.cmd == IpcCommand::ListAudio,
        req.cmd != IpcCommand::ListAudio ==> out is Recorder && out->0 is Done && out->0->Done_0.ok,
{
}

/// A request to start captures what it asks for: the output that it names, at its rate,
/// with the audio of its plan; a start is notified exactly if nobody looks on.
pub proof fn a_request_starts_what_it_asks_for(
    pre: ServerView,
    req: RequestView,
    outputs: Seq<OutputView>,
    calls: Seq<PortCall>,
    post: RecView,
    out: WorkView,
)
    requires
        dispatch_run(pre, req, outputs, calls, post, out),
        pre.rec.state == State::Idle,
    ensures
        post.state == State::SelectingRegion ==> {
            &&& req.cmd == IpcCommand::StartRegion || req.cmd == IpcCommand::ToggleRegion
            &&& out == WorkView::Park
            &&& post.pending_audio == request_audio(req, pre.rec)
            &&& post.notify_start == (pre.gui_clients == 0)
            &&& calls.last() is Spawn && calls.last()->Spawn_argv == seq!["slurp"@]
            &&& post.selector == Some(calls.last()->Spawn_who)
        },
        post.state == State::Starting ==> {
            &&& req.cmd == IpcCommand::StartFullscreen || req.cmd == IpcCommand::StartBoth
            &&& out == WorkView::Recorder(StepView::PrepareOutput)
            &&& post.audio == request_audio(req, pre.rec)
            &&& post.notify_start == (pre.gui_clients == 0)
            &&& req.cmd == IpcCommand::StartFullscreen ==> post.capture_mode == Some("one"@)
            &&& req.cmd == IpcCommand::StartFullscreen && says_something(req.output)
                ==> post.capture_output == Some(trim_of(req.output->0))
            &&& req.cmd == IpcCommand::StartFullscreen && req.fps is Some && req.fps->0 > 0
                ==> post.pending is Start && post.pending->fps == req.fps
            &&& req.cmd == IpcCommand::StartFullscreen && req.fps == Some(0u32)
                ==> post.pending->fps is None
            &&& req.cmd == IpcCommand::StartFullscreen && req.fps is None && pre.rec.config.one_fps
                is Some && pre.rec.config.one_fps->0 > 0 ==> post.pending->fps
                == pre.rec.config.one_fps
            &&& req.cmd == IpcCommand::StartBoth ==> post.capture_mode == Some("both"@)
                && outputs.len() == 2
        },
        post.state == State::Idle || post.state == State::SelectingRegion || post.state
            == State::Starting,
        req.cmd == IpcCommand::Stop ==> calls.len() == 0 && post == pre.rec,
{
}

/// A request to stop interrupts the recorder that runs; so does one to toggle, or to
/// shut down. A start is refused then, and nothing is signalled.
pub proof fn a_request_stops_what_runs(
    pre: ServerView,
    req: RequestView,
    outputs: Seq<OutputView>,
    calls: Seq<PortCall>,
    post: RecView,
    out: WorkView,
)
    requires
        dispatch_run(pre, req, outputs, calls, post, out),
        pre.rec.state == State::Recording,
        pre.rec.pair is None,
    ensures
        req.cmd == IpcCommand::Stop || req.cmd == IpcCommand::ToggleRegion || req.cmd
            == IpcCommand::Shutdown ==> calls.len() > 1 && signals(
            calls[1],
            pre.rec.recorder->0,
            Signal::Interrupt,
        ) && post.state != State::Recording,
        req.cmd == IpcCommand::StartRegion || req.cmd == IpcCommand::StartFullscreen || req.cmd
            == IpcCommand::StartBoth ==> {
            &&& calls.len() == 0
            &&& post == pre.rec
            &&& out is Recorder && out->0 is Done && out->0->Done_0.code == MachineCode::Busy
        },
{
    if req.cmd == IpcCommand::Stop || req.cmd == IpcCommand::ToggleRegion || req.cmd
        == IpcCommand::Shutdown {
        let step = out->0;
        crate::flow_laws::a_recorder_has_its_time_to_stop(pre.rec, calls, post, step);
    }
}

/// Whoever waits for a region is answered when a stop or a shutdown is over, or a toggle
/// that stopped; a connection counts as a view exactly if it subscribes or says so.
pub proof fn who_waits_is_answered(req: RequestView, was_busy: bool)
    ensures
        ends_pending(IpcCommand::Stop, was_busy),
        ends_pending(IpcCommand::Shutdown, was_busy),
        ends_pending(IpcCommand::ToggleRegion, was_busy) <==> was_busy,
        ends_pending(req.cmd, was_busy) ==> req.cmd == IpcCommand::Stop || req.cmd
            == IpcCommand::Shutdown || req.cmd == IpcCommand::ToggleRegion,
        req.cmd == IpcCommand::Subscribe ==> marks_gui(req),
        req.gui == Some(true) ==> marks_gui(req),
        req.cmd != IpcCommand::Subscribe && req.gui != Some(true) ==> !marks_gui(req),
{
}

/// A server ends by itself only when it served, nobody looks on or waits, and nothing is
/// under way; then it does.
pub proof fn an_unused_server_ends(v: ServerView)
    ensures
        v.idle_exit(true) <==> v.ever_served && v.gui_clients == 0 && v.rec.state == State::Idle
            && !v.pending_region && !v.shutdown,
        !v.idle_exit(false),
{
}

// ---------------------------------------------------------------------------
// The shell
// ---------------------------------------------------------------------------

/// The flags of a command make its plan: each name is that of its own flag; the mode is
/// the one named, where it is known, and off where it is not; without one it is
/// everything exactly if `--audio` is given; a microphone is recorded if it is asked for
/// or named. Without flags there is no plan.
pub proof fn flags_make_the_plan(f: FlagsView)
    ensures
        flags_plan(f) is None <==> !f.audio && f.system is None && f.audio_sink is None
            && f.audio_app is None && !f.mic && f.mic_device is None,
        flags_plan(f) is Some ==> {
            let plan = flags_plan(f)->0;
            &&& is_name_of(plan.sink, f.audio_sink)
            &&& is_name_of(plan.app, f.audio_app)
            &&& is_name_of(plan.mic_device, f.mic_device)
            &&& plan.mic <==> f.mic || f.mic_device is Some
            &&& f.system is None ==> (plan.system == SystemAudioMode::All <==> f.audio)
            &&& f.system is None ==> plan.system != SystemAudioMode::App
            &&& f.system is Some && SystemAudioMode::named(f.system->0) is Some ==> plan.system
                == SystemAudioMode::named(f.system->0)->0
            &&& f.system is Some && SystemAudioMode::named(f.system->0) is None ==> plan.system
                == SystemAudioMode::Off
        },
{
}

/// A plan is more than a switch can say exactly if it has a microphone, an application
/// or a named device in it; what a switch can say, everything or nothing on the default
/// sink, is not.
pub proof fn a_switch_says_everything_or_nothing(p: PlanView)
    ensures
        !is_rich(p) ==> !p.mic && p.sink is None && p.mic_device is None && (p.system
            == SystemAudioMode::Off || p.system == SystemAudioMode::All),
        p.mic || p.sink is Some || p.mic_device is Some || p.system == SystemAudioMode::App
            ==> is_rich(p),
{
}

/// What is printed for people is the message and then each warning, in order.
pub proof fn messages_are_printed_in_order(resp: ResponseView)
    ensures
        ({
            let lines = message_lines_of(resp);
            let n = if resp.message.len() > 0 {
                1int
            } else {
                0
            };
            &&& lines.len() == n + resp.warnings.len()
            &&& resp.message.len() > 0 ==> lines[0] == resp.message
            &&& forall|k: int|
                0 <= k < resp.warnings.len() ==> lines[n + k] == "warning: "@
                    + #[trigger] resp.warnings[k]
        }),
{
}

/// A server that cannot be connected to is gone and may come back; a broken protocol is
/// neither. A connection that broke is gone; a wait that was cut short is not, and may
/// pass.
pub proof fn a_lost_connection_is_told_apart(e: ClientError)
    ensures
        e is Connect ==> e.is_gone() && e.may_pass(),
        e is Protocol ==> !e.is_gone() && !e.may_pass(),
        e is Io && (e->Io_0.kind == IoKind::WouldBlock || e->Io_0.kind == IoKind::TimedOut
            || e->Io_0.kind == IoKind::Interrupted) ==> !e.is_gone() && e.may_pass(),
        e is Io && (e->Io_0.kind == IoKind::BrokenPipe || e->Io_0.kind == IoKind::NotConnected)
            ==> e.is_gone() && !e.may_pass(),
        e is Io && (e->Io_0.kind == IoKind::ConnectionReset || e->Io_0.kind
            == IoKind::ConnectionAborted) ==> e.is_gone() && e.may_pass(),
        e is Io && e->Io_0.kind == IoKind::Other ==> !e.is_gone() && !e.may_pass(),
        e is Connect ==> ends_in(e.text(), e->Connect_0.message@),
        e is Io ==> ends_in(e.text(), e->Io_0.message@),
        e is Protocol ==> ends_in(e.text(), e->Protocol_0@),
{
    let t = e.text();
    match e {
        ClientError::Connect(f) => {
            assert(t.skip(t.len() - f.message@.len()) =~= f.message@);
        },
        ClientError::Io(f) => {
            assert(t.skip(t.len() - f.message@.len()) =~= f.message@);
        },
        ClientError::Protocol(m) => {
            assert(t.skip(t.len() - m@.len()) =~= m@);
        },
    }
}

// ---------------------------------------------------------------------------
// The runtime directory and programs
// ---------------------------------------------------------------------------

proof fn lemma_split_last(p: Seq<char>, name: Seq<char>)
    requires
        forall|i: int| 0 <= i < name.len() ==> name[i] != '/',
    ensures
        split_of(p + seq!['/'] + name, '/') == split_of(p, '/').push(name),
    decreases p.len(),
{
    let s = p + seq!['/'] + name;
    let k = find_char(p, '/');
    lemma_find(p, '/');
    if k < p.len() {
        assert forall|i: int| 0 <= i < k implies s[i] != '/' by {
            assert(s[i] == p[i]);
        }
        assert(s[k] == p[k]);
        lemma_find_char(s, '/', k);
        let rest = p.subrange(k + 1, p.len() as int);
        lemma_split_last(rest, name);
        assert(s.subrange(0, k) =~= p.subrange(0, k));
        assert(s.subrange(k + 1, s.len() as int) =~= rest + seq!['/'] + name);
        assert(split_of(s, '/') =~= split_of(p, '/').push(name));
    } else {
        assert forall|i: int| 0 <= i < p.len() implies s[i] != '/' by {
            assert(s[i] == p[i]);
        }
        assert(s[p.len() as int] == '/');
        lemma_find_char(s, '/', p.len() as int);
        assert(s.subrange(0, p.len() as int) =~= p);
        assert(s.subrange(p.len() as int + 1, s.len() as int) =~= name);
        lemma_find_char(name, '/', name.len() as int);
        assert(split_of(name, '/') =~= seq![name]);
        assert(split_of(p, '/') =~= seq![p]);
        assert(split_of(s, '/') =~= seq![p, name]);
    }
}

proof fn lemma_find(s: Seq<char>, c: char)
    ensures
        0 <= find_char(s, c) <= s.len(),
        forall|i: int| 0 <= i < find_char(s, c) ==> s[i] != c,
        find_char(s, c) < s.len() ==> s[find_char(s, c)] == c,
    decreases s.len(),
{
    if s.len() > 0 && s[0] != c {
        let t = s.drop_first();
        lemma_find(t, c);
        let k = find_char(t, c);
        assert forall|i: int| 0 <= i < k + 1 implies s[i] != c by {
            if i > 0 {
                assert(s[i] == t[i - 1]);
            }
        }
        if k < t.len() {
            assert(t[k] == s[k + 1]);
        }
    }
}

/// A name below a path adds one part to it; a slash at its end, or a dot, adds none.
pub proof fn path_parts_are_names(p: Seq<char>, name: Seq<char>)
    requires
        forall|i: int| 0 <= i < name.len() ==> name[i] != '/',
    ensures
        name.len() > 0 && name != "."@ ==> components(p + seq!['/'] + name) == components(p).push(
            name,
        ),
        name.len() == 0 || name == "."@ ==> components(p + seq!['/'] + name) == components(p),
{
    lemma_split_last(p, name);
    let f = |s: Seq<char>| is_component(s);
    let all = split_of(p, '/').push(name);
    reveal(Seq::filter);
    assert(all.drop_last() =~= split_of(p, '/'));
    assert(all.last() == name);
}

/// The shared directory stays the shared directory however its path ends, and what lies
/// in it is not it.
pub proof fn what_lies_in_the_shared_directory_is_not_it(p: Seq<char>, name: Seq<char>)
    requires
        forall|i: int| 0 <= i < name.len() ==> name[i] != '/',
        p.len() > 0,
    ensures
        name.len() == 0 || name == "."@ ==> is_shared_tmp(p + seq!['/'] + name) == is_shared_tmp(p),
        name.len() > 0 && name != "."@ && is_shared_tmp(p) ==> !is_shared_tmp(
            p + seq!['/'] + name,
        ),
        is_shared_tmp(seq!['/'] + "tmp"@),
{
    path_parts_are_names(p, name);
    let whole = p + seq!['/'] + name;
    assert(whole[0] == p[0]);
    reveal_strlit("tmp");
    reveal_strlit(".");
    let none = Seq::<char>::empty();
    let tmp = "tmp"@;
    assert(tmp[0] == 't' && tmp[1] == 'm' && tmp[2] == 'p' && tmp.len() == 3);
    path_parts_are_names(none, tmp);
    assert(none + seq!['/'] + tmp =~= seq!['/'] + tmp);
    assert(split_of(none, '/') =~= seq![none]);
    assert(components(none) =~= Seq::<Seq<char>>::empty()) by {
        reveal(Seq::filter);
        let f = |s: Seq<char>| is_component(s);
        let one = seq![none];
        let no_part = Seq::<Seq<char>>::empty();
        assert(one.drop_last() =~= no_part);
        assert(no_part.filter(f) =~= no_part);
        assert(!f(one.last()));
        assert(one.filter(f) =~= no_part);
    }
    assert(components(seq!['/'] + tmp) =~= seq![tmp]);
    if name.len() > 0 && name != "."@ && is_shared_tmp(p) {
        assert(components(whole).len() == 2);
    }
}

/// A runtime directory is refused exactly if it is none or belongs to somebody else, and
/// is named then.
pub proof fn a_foreign_directory_is_refused(dir: Seq<char>, facts: DirFacts, euid: u32)
    ensures
        refused_dir(dir, facts, euid) is Some <==> !facts.is_dir || facts.owner != euid,
        refused_dir(dir, facts, euid) matches Some(m) ==> has_part(m, dir),
{
    if !facts.is_dir {
        assert(refused_dir(dir, facts, euid)->0 =~= "runtime path is not a directory: "@ + dir
            + Seq::<char>::empty());
    } else if facts.owner != euid {
        let rest = " not owned by current user (uid "@ + crate::text::decimal(facts.owner as nat)
            + " != euid "@ + crate::text::decimal(euid as nat) + ")"@;
        assert(refused_dir(dir, facts, euid)->0 =~= "runtime dir "@ + dir + rest);
    }
}

/// A program is looked for by its name in each directory of the search path, in order; a
/// path stands for itself.
pub proof fn a_program_is_looked_for_in_order(binary: Seq<char>, dirs: Seq<Seq<char>>)
    requires
        binary.len() > 0,
    ensures
        binary.contains('/') ==> program_candidates(binary, dirs) == seq![binary],
        !binary.contains('/') ==> {
            &&& program_candidates(binary, dirs).len() == dirs.len()
            &&& forall|i: int|
                0 <= i < dirs.len() ==> lies_in(
                    program_candidates(binary, dirs)[i],
                    #[trigger] dirs[i],
                    binary,
                )
        },
{
    if !binary.contains('/') {
        assert(binary[0] != '/');
        assert(!is_absolute_path(binary));
    }
}

// ---------------------------------------------------------------------------
// Calls of pactl
// ---------------------------------------------------------------------------

/// What a call printed is taken as it is; a call that failed says what it wrote, without
/// white space around it; a program that is not there is told apart.
pub proof fn a_call_says_what_it_printed(args: Seq<Seq<char>>, run: PactlRun)
    ensures
        run is Ran ==> printed(args, run) == Ok::<Seq<char>, AudioErrorView>(run->Ran_0@),
        run is Failed ==> printed(args, run) is Err && printed(args, run)->Err_0 is Message
            && ends_in(printed(args, run)->Err_0->Message_0, trim_of(run->Failed_0@)),
        run is NotRun && run->missing ==> printed(args, run) == Err::<Seq<char>, AudioErrorView>(
            AudioErrorView::PactlMissing,
        ),
        run is NotRun && !run->missing ==> printed(args, run) is Err && printed(args, run)->Err_0
            is Message && ends_in(printed(args, run)->Err_0->Message_0, run->error@),
{
    match run {
        PactlRun::Failed(e) => {
            let m = printed(args, run)->Err_0->Message_0;
            let t = trim_of(e@);
            assert(m.skip(m.len() - t.len()) =~= t);
        },
        PactlRun::NotRun { missing, error } => {
            if !missing {
                let m = printed(args, run)->Err_0->Message_0;
                assert(m.skip(m.len() - error@.len()) =~= error@);
            }
        },
        _ => {},
    }
}

/// A module that was loaded is known by the number that the call printed; where it
/// printed none, the load failed.
pub proof fn a_loaded_module_has_its_number(name: Seq<char>, run: PactlRun, id: u32)
    ensures
        loaded(name, run) == Ok::<u32, AudioErrorView>(id) <==> run is Ran && parsed_u32(
            trim_of(run->Ran_0@),
        ) == Some(id),
{
}

/// The inventory needs the short lists and does without the rest: what could not be
/// listed counts as empty. Each list is read for what it is.
pub proof fn the_inventory_needs_the_short_lists(l: Listing)
    ensures
        listed_inventory(l) is Ok <==> l.sinks_short is Ok && l.sources_short is Ok,
        l.sinks_short is Err ==> listed_inventory(l) == Err::<InventoryView, AudioErrorView>(
            l.sinks_short->Err_0@,
        ),
        l.sinks_short is Ok && l.sources_short is Err ==> listed_inventory(l) == Err::<
            InventoryView,
            AudioErrorView,
        >(l.sources_short->Err_0@),
        l.sinks_short is Ok && l.sources_short is Ok && l.sink_inputs is Ok && l.default_sink is Ok
            && l.default_source is Ok && l.sinks is Ok && l.sources is Ok ==> listed_inventory(l)
            == Ok::<InventoryView, AudioErrorView>(
            described_inventory(
                l.sinks_short->Ok_0@,
                l.sources_short->Ok_0@,
                l.sink_inputs->Ok_0@,
                trim_of(l.default_sink->Ok_0@),
                trim_of(l.default_source->Ok_0@),
                listed_devices(l.sinks->Ok_0@),
                listed_devices(l.sources->Ok_0@),
            ),
        ),
        forall|t: Result<String, crate::audio::AudioError>|
            t is Err ==> (#[trigger] or_empty(t)).len() == 0,
{
}

/// Views that leave are counted off, and never below zero.
pub proof fn views_are_counted_off(n: u32, k: u32)
    ensures
        k <= n ==> less(n, k) + k == n,
        k > n ==> less(n, k) == 0,
{
}

} // verus!
