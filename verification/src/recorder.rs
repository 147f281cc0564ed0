//! The recorder: drives a session through its ports.
//!
//! A command either ends, or asks for something from the file system: a place
//! for the recording's file before the recorder starts, or a look at the file
//! after it ended. The caller hands that back and the command goes on.

use vstd::prelude::*;
use vstd::string::*;

use crate::audio::clean;
use crate::both::BothView;
use crate::config::Config;
use crate::dual::{Duo, Layout};
use crate::output::{
    append_stderr, build_wf_recorder_argv, path_allocation, resolve_fullscreen_output,
    resolve_one_fps, unique_output_path,
};
use crate::ports::{
    absolutize_path, ChildHandle, Clipboard, Clock, CommandSpawner, ExitStatus, Notifier, PortError,
    Signal, SpawnOpts, Timestamp,
};
use crate::reap::killed_run;
use crate::session::{
    begin_run, cancel_run, check_run, complete_run, exited_run, finish_failure, fullscreen_run,
    kill_run, named_run, output_run, poll_region_run, poll_run, region_run, release_run, saved_body,
    saved_message, saved_run, saved_warnings, selected_run, settled_run, shutdown_run, spawned_run,
    start_failed,
    start_run, stop_recorder_run, stop_run, stop_timed_out, terminate_run, toggle_run, told,
    PendingView, RecView, SiteView, StepView,
};
use crate::status::{CommandResult, MachineCode, ResultView, State, Status, StatusView};
use crate::text::{
    borrow_opt, clone_opt, concat2, concat3, concat4, opt_str_view, opt_view, trim, views,
};
use crate::trace::{
    added, answer, failure, grown, lemma_added, lemma_grown, starts_named, Child, PortCall, Ports,
};

mod pair;

verus! {

/// What a command leads to.
#[derive(Debug)]
pub enum Step {
    /// The command is over.
    Done(CommandResult),
    /// A place for the recording's file is needed: see [`Recorder::provide_output`].
    PrepareOutput,
    /// A look at the recording's file is needed: see [`Recorder::provide_check`].
    CheckOutput,
    /// A look at the recordings of two monitors is needed: see
    /// [`Recorder::provide_temps`].
    CheckTemps,
}

impl View for Step {
    type V = StepView;

    open spec fn view(&self) -> StepView {
        match self {
            Step::Done(r) => StepView::Done(r@),
            Step::PrepareOutput => StepView::PrepareOutput,
            Step::CheckOutput => StepView::CheckOutput,
            Step::CheckTemps => StepView::CheckTemps,
        }
    }
}

/// The view of an optional step.
pub open spec fn opt_step(o: Option<Step>) -> Option<StepView> {
    match o {
        Some(s) => Some(s@),
        None => None,
    }
}

/// The view of a result of beginning.
pub open spec fn begin_result(r: Result<(), CommandResult>) -> Result<(), ResultView> {
    match r {
        Ok(_) => Ok(()),
        Err(e) => Err(e@),
    }
}

/// What was found of the place for a recording's file.
#[derive(Debug)]
pub struct OutputSite {
    /// Whether the output directory is there.
    pub ready: Result<(), PortError>,
    /// The paths in the output directory that are taken.
    pub taken: Vec<String>,
    /// The working directory.
    pub cwd: String,
}

impl View for OutputSite {
    type V = SiteView;

    open spec fn view(&self) -> SiteView {
        SiteView { failed: failure(self.ready), taken: views(self.taken@), cwd: self.cwd@ }
    }
}

enum Pending {
    Nothing,
    Start { geometry: Option<String>, output: Option<String>, fps: Option<u32> },
    Finish { status: ExitStatus, cooperative: bool, stderr: String },
    BothStart { layout: Layout },
    BothTemps { children: String },
    BothFinal { composed: ExitStatus, composer: String },
}

impl Pending {
    spec fn view(&self) -> PendingView {
        match self {
            Pending::Nothing => PendingView::Nothing,
            Pending::Start { geometry, output, fps } => PendingView::Start {
                geometry: opt_view(*geometry),
                output: opt_view(*output),
                fps: *fps,
            },
            Pending::Finish { status, cooperative, stderr } => PendingView::Finish {
                status: *status,
                cooperative: *cooperative,
                stderr: stderr@,
            },
            Pending::BothStart { layout } => PendingView::BothStart { layout: layout@ },
            Pending::BothTemps { children } => PendingView::BothTemps { children: children@ },
            Pending::BothFinal { composed, composer } => PendingView::BothFinal {
                composed: *composed,
                composer: composer@,
            },
        }
    }
}

/// Two monitors and the files that their recordings are written to.
struct BothPlan {
    layout: Layout,
    a: String,
    b: String,
}

impl BothPlan {
    spec fn view(&self) -> BothView {
        BothView { layout: self.layout@, a: self.a@, b: self.b@ }
    }
}

/// Owns the children of at most one session and drives it.
pub struct Recorder<S, C, N, Cl> where
    S: CommandSpawner,
    C: Clock,
    N: Notifier,
    Cl: Clipboard,
 {
    state: State,
    ports: Ports<S, C, N, Cl>,
    config: Config,
    audio: bool,
    pending_audio: bool,
    notify_start: bool,
    slurp_child: Option<Child<S::Child>>,
    recorder_child: Option<Child<S::Child>>,
    duo: Option<Duo<S::Child>>,
    both: Option<BothPlan>,
    discard: Vec<String>,
    output_path: Option<String>,
    started_at: Option<Timestamp>,
    last_error: Option<String>,
    last_success_path: Option<String>,
    last_child_exit: Option<ExitStatus>,
    stop_sent_signals: Vec<Signal>,
    stopping_pid: Option<u32>,
    capture_output: Option<String>,
    capture_mode: Option<String>,
    forced_output_inventory: Option<Vec<String>>,
    pending: Pending,
}

/// The name of a child that may be there.
pub open spec fn opt_who<H>(child: Option<Child<H>>) -> Option<int> {
    match child {
        Some(c) => Some(c.who()),
        None => None,
    }
}

impl<S, C, N, Cl> View for Recorder<S, C, N, Cl> where
    S: CommandSpawner,
    C: Clock,
    N: Notifier,
    Cl: Clipboard,
 {
    type V = RecView;

    closed spec fn view(&self) -> RecView {
        RecView {
            state: self.state,
            config: self.config@,
            audio: self.audio,
            pending_audio: self.pending_audio,
            notify_start: self.notify_start,
            selector: opt_who(self.slurp_child),
            recorder: opt_who(self.recorder_child),
            pair: match self.duo {
                Some(d) => Some(d.pair()),
                None => None,
            },
            both: match self.both {
                Some(b) => Some(b.view()),
                None => None,
            },
            discard: views(self.discard@),
            output_path: opt_view(self.output_path),
            started_at: self.started_at,
            last_error: opt_view(self.last_error),
            last_success_path: opt_view(self.last_success_path),
            last_child_exit: self.last_child_exit,
            stop_sent_signals: self.stop_sent_signals@,
            stopping_pid: self.stopping_pid,
            capture_output: opt_view(self.capture_output),
            capture_mode: opt_view(self.capture_mode),
            forced_outputs: match self.forced_output_inventory {
                Some(v) => Some(views(v@)),
                None => None,
            },
            pending: self.pending.view(),
        }
    }
}

impl<S, C, N, Cl> Recorder<S, C, N, Cl> where
    S: CommandSpawner,
    C: Clock,
    N: Notifier,
    Cl: Clipboard,
 {
    /// The port calls made so far.
    pub closed spec fn calls(&self) -> Seq<PortCall> {
        self.ports@
    }

    /// A recorder at rest; a relative output directory is taken below `cwd`.
    pub fn new(
        spawner: S,
        clock: C,
        notifier: N,
        clipboard: Cl,
        config: Config,
        cwd: &str,
    ) -> (r: Self)
        ensures
            r@ == RecView::fresh(config@.with_paths(cwd@)),
            r@.wf(),
            r.calls() == Seq::<PortCall>::empty(),
            r.spawner_port() == spawner,
            r.clock_port() == clock,
            r.notifier_port() == notifier,
            r.clipboard_port() == clipboard,
            r.recorder_handle() is None,
    {
        let mut config = config;
        config.normalize_paths(cwd);
        let audio = config.audio_default;
        let r = Recorder {
            state: State::Idle,
            ports: Ports::new(spawner, clock, notifier, clipboard),
            config,
            audio,
            pending_audio: audio,
            notify_start: true,
            slurp_child: None,
            recorder_child: None,
            duo: None,
            both: None,
            discard: Vec::new(),
            output_path: None,
            started_at: None,
            last_error: None,
            last_success_path: None,
            last_child_exit: None,
            stop_sent_signals: Vec::new(),
            stopping_pid: None,
            capture_output: None,
            capture_mode: None,
            forced_output_inventory: None,
            pending: Pending::Nothing,
        };
        assert(r@.stop_sent_signals =~= Seq::<Signal>::empty());
        assert(r@.discard =~= Seq::<Seq<char>>::empty());
        r
    }

    // -----------------------------------------------------------------------
    // Selecting a region
    // -----------------------------------------------------------------------

    /// From rest: spawn the region selector, without waiting for it.
    pub fn begin_region(&mut self, audio: Option<bool>, notify_start: bool) -> (r: Result<
        (),
        CommandResult,
    >)
        requires
            old(self)@.wf(),
        ensures
            final(self)@.wf(),
            grown(final(self).calls(), old(self).calls()),
            final(self).keeps_ports(*old(self)),
            begin_run(
                old(self)@,
                audio,
                notify_start,
                added(final(self).calls(), old(self).calls()),
                final(self)@,
                begin_result(r),
            ),
    {
        let ghost start = self.ports@;
        if self.state != State::Idle {
            proof {
                lemma_added(start, start, Seq::empty());
            }
            return Err(
                CommandResult::err(
                    MachineCode::Busy,
                    concat2("busy: state is ", self.state.as_str()).as_str(),
                ),
            );
        }
        let has_slurp = self.ports.probe("slurp");
        let ghost c0 = PortCall::Probe { binary: "slurp"@, found: has_slurp };
        if !has_slurp {
            let msg = concat2("missing hard dependency: ", "slurp");
            self.last_error = Some(msg.clone());
            proof {
                assert(self.ports@ =~= start + seq![c0]);
                lemma_added(self.ports@, start, seq![c0]);
            }
            return Err(CommandResult::err(MachineCode::DepMissing, msg.as_str()));
        }
        let has_recorder = self.ports.probe("wf-recorder");
        let ghost c1 = PortCall::Probe { binary: "wf-recorder"@, found: has_recorder };
        if !has_recorder {
            let msg = concat2("missing hard dependency: ", "wf-recorder");
            self.last_error = Some(msg.clone());
            proof {
                assert(self.ports@ =~= start + seq![c0, c1]);
                lemma_added(self.ports@, start, seq![c0, c1]);
            }
            return Err(CommandResult::err(MachineCode::DepMissing, msg.as_str()));
        }
        self.pending_audio = match audio {
            Some(a) => a,
            None => self.config.audio_default,
        };
        self.notify_start = notify_start;
        self.last_error = None;
        let mut argv: Vec<String> = Vec::new();
        argv.push("slurp".to_owned());
        let spawned = self.ports.spawn(&argv, SpawnOpts { new_process_group: false });
        proof {
            assert(views(argv@) =~= seq!["slurp"@]);
            let c2 = PortCall::Spawn {
                who: start.len() as int + 2,
                argv: seq!["slurp"@],
                new_group: false,
                failed: failure(spawned),
            };
            assert(self.ports@ =~= start + seq![c0, c1, c2]);
            lemma_added(self.ports@, start, seq![c0, c1, c2]);
        }
        match spawned {
            Ok(child) => {
                self.slurp_child = Some(child);
                self.state = State::SelectingRegion;
                Ok(())
            },
            Err(e) => {
                let msg = concat2("failed to spawn slurp: ", e.to_text().as_str());
                self.last_error = Some(msg.clone());
                Err(CommandResult::err(MachineCode::SpawnFailed, msg.as_str()))
            },
        }
    }

    fn finish_slurp(&mut self, status: ExitStatus, child: &mut Child<S::Child>) -> (r: Step)
        requires
            old(self)@.state == State::SelectingRegion,
            old(self)@.selector is None,
            old(self)@.recorder is None,
            old(self)@.pair is None,
            old(self)@.both is None,
            old(self)@.pending is Nothing,
            old(self)@.at_rest(),
        ensures
            final(self)@.wf(),
            grown(final(self).calls(), old(self).calls()),
            final(self).keeps_ports(*old(self)),
            final(self).spawner_port() == old(self).spawner_port(),
            selected_run(
                RecView { selector: Some(old(child).who()), ..old(self)@ },
                status,
                added(final(self).calls(), old(self).calls()),
                final(self)@,
                r@,
            ),
    {
        let ghost start = self.ports@;
        let text = self.ports.take_stdout(child);
        proof {
            assert(self.ports@ =~= start + seq![PortCall::Stdout { who: child.who(), text: text@ }]);
            lemma_added(self.ports@, start, seq![PortCall::Stdout { who: child.who(), text: text@ }]);
        }
        let geom = trim(text.as_str());
        if !status.success() || geom.is_empty() {
            self.state = State::Idle;
            return Step::Done(CommandResult::cancelled());
        }
        self.capture_output = None;
        self.capture_mode = Some("region".to_owned());
        self.audio = self.pending_audio;
        self.state = State::Starting;
        self.pending = Pending::Start { geometry: Some(geom.to_owned()), output: None, fps: None };
        Step::PrepareOutput
    }

    /// Wait for the region to be selected.
    pub fn complete_region_selection(&mut self) -> (r: Step)
        requires
            old(self)@.wf(),
        ensures
            final(self)@.wf(),
            grown(final(self).calls(), old(self).calls()),
            final(self).keeps_ports(*old(self)),
            final(self).spawner_port() == old(self).spawner_port(),
            complete_run(
                old(self)@,
                added(final(self).calls(), old(self).calls()),
                final(self)@,
                r@,
            ),
    {
        let ghost start = self.ports@;
        if self.state != State::SelectingRegion {
            proof {
                lemma_added(start, start, Seq::empty());
            }
            return Step::Done(
                CommandResult::err(
                    MachineCode::Invalid,
                    concat2(
                        "complete_region_selection requires SelectingRegion, got ",
                        self.state.as_str(),
                    ).as_str(),
                ),
            );
        }
        let mut child = self.slurp_child.take().unwrap();
        let waited = self.ports.wait(&mut child);
        let ghost first = seq![PortCall::Wait { who: child.who(), answer: answer(waited) }];
        let ghost mid = self.ports@;
        assert(mid =~= start + first);
        match waited {
            Ok(status) => {
                let step = self.finish_slurp(status, &mut child);
                proof {
                    lemma_after(start, first, mid, self.ports@);
                    assert(added(self.ports@, start).skip(1) =~= added(self.ports@, mid));
                }
                step
            },
            Err(e) => {
                self.ports.force_reap_slurp(&mut child);
                self.state = State::Idle;
                let msg = concat2("slurp wait failed: ", e.to_text().as_str());
                self.last_error = Some(msg.clone());
                proof {
                    lemma_after(start, first, mid, self.ports@);
                    assert(added(self.ports@, start).skip(1) =~= added(self.ports@, mid));
                }
                Step::Done(CommandResult::err(MachineCode::IoError, msg.as_str()))
            },
        }
    }

    /// Look whether the region is selected; nothing while it is not.
    pub fn poll_region_selection(&mut self) -> (r: Option<Step>)
        requires
            old(self)@.wf(),
        ensures
            final(self)@.wf(),
            grown(final(self).calls(), old(self).calls()),
            final(self).keeps_ports(*old(self)),
            final(self).spawner_port() == old(self).spawner_port(),
            poll_region_run(
                old(self)@,
                added(final(self).calls(), old(self).calls()),
                final(self)@,
                opt_step(r),
            ),
    {
        let ghost start = self.ports@;
        if self.state != State::SelectingRegion {
            proof {
                lemma_added(start, start, Seq::empty());
            }
            return None;
        }
        let mut child = self.slurp_child.take().unwrap();
        let looked = self.ports.try_wait(&mut child);
        let ghost first = seq![PortCall::TryWait { who: child.who(), answer: answer(looked) }];
        let ghost mid = self.ports@;
        proof {
            assert(mid =~= start + first);
            lemma_added(mid, start, first);
        }
        match looked {
            Ok(None) => {
                self.slurp_child = Some(child);
                None
            },
            Ok(Some(status)) => {
                let step = self.finish_slurp(status, &mut child);
                proof {
                    lemma_after(start, first, mid, self.ports@);
                    assert(added(self.ports@, start).skip(1) =~= added(self.ports@, mid));
                }
                Some(step)
            },
            Err(e) => {
                self.ports.force_reap_slurp(&mut child);
                self.state = State::Idle;
                let msg = concat2("slurp poll failed: ", e.to_text().as_str());
                self.last_error = Some(msg.clone());
                proof {
                    lemma_after(start, first, mid, self.ports@);
                    assert(added(self.ports@, start).skip(1) =~= added(self.ports@, mid));
                }
                Some(Step::Done(CommandResult::err(MachineCode::IoError, msg.as_str())))
            },
        }
    }

    /// Select a region and start to record it.
    pub fn start_region(&mut self, audio: Option<bool>, notify_start: bool) -> (r: Step)
        requires
            old(self)@.wf(),
        ensures
            final(self)@.wf(),
            grown(final(self).calls(), old(self).calls()),
            final(self).keeps_ports(*old(self)),
            region_run(
                old(self)@,
                audio,
                notify_start,
                added(final(self).calls(), old(self).calls()),
                final(self)@,
                r@,
            ),
    {
        let ghost start = self.ports@;
        let begun = self.begin_region(audio, notify_start);
        let ghost mid = self.ports@;
        let ghost between = self@;
        match begun {
            Err(r) => Step::Done(r),
            Ok(_) => {
                let step = self.complete_region_selection();
                proof {
                    lemma_grown(mid, start);
                    let first = added(mid, start);
                    lemma_after(start, first, mid, self.ports@);
                    let all = added(self.ports@, start);
                    assert(all.take(3) =~= first);
                    assert(all.skip(3) =~= added(self.ports@, mid));
                    assert(begin_run(
                        old(self)@,
                        audio,
                        notify_start,
                        all.take(3),
                        between,
                        Ok(()),
                    ));
                }
                step
            },
        }
    }

    // -----------------------------------------------------------------------
    // Starting
    // -----------------------------------------------------------------------

    /// Start to capture one output. `outputs` lists the outputs that are there;
    /// an injected inventory wins over it.
    pub fn start_fullscreen(
        &mut self,
        audio: Option<bool>,
        notify_start: bool,
        output_override: Option<&str>,
        fps_override: Option<u32>,
        outputs: &Vec<String>,
    ) -> (r: Step)
        requires
            old(self)@.wf(),
        ensures
            final(self)@.wf(),
            grown(final(self).calls(), old(self).calls()),
            final(self).keeps_ports(*old(self)),
            final(self).spawner_port() == old(self).spawner_port(),
            fullscreen_run(
                old(self)@,
                audio,
                notify_start,
                opt_str_view(output_override),
                fps_override,
                views(outputs@),
                added(final(self).calls(), old(self).calls()),
                final(self)@,
                r@,
            ),
    {
        let ghost start = self.ports@;
        if self.state != State::Idle {
            proof {
                lemma_added(start, start, Seq::empty());
            }
            return Step::Done(
                CommandResult::err(
                    MachineCode::Busy,
                    concat2("busy: state is ", self.state.as_str()).as_str(),
                ),
            );
        }
        let has_recorder = self.ports.probe("wf-recorder");
        proof {
            let c0 = PortCall::Probe { binary: "wf-recorder"@, found: has_recorder };
            assert(self.ports@ =~= start + seq![c0]);
            lemma_added(self.ports@, start, seq![c0]);
        }
        if !has_recorder {
            let msg = concat2("missing hard dependency: ", "wf-recorder");
            self.last_error = Some(msg.clone());
            return Step::Done(CommandResult::err(MachineCode::DepMissing, msg.as_str()));
        }
        let inventory = match &self.forced_output_inventory {
            Some(f) => f,
            None => outputs,
        };
        let resolved = resolve_fullscreen_output(
            output_override,
            self.config.fullscreen_output_override(),
            inventory,
        );
        match resolved {
            Err(e) => {
                self.last_error = Some(e.clone());
                Step::Done(CommandResult::err(MachineCode::Invalid, e.as_str()))
            },
            Ok(name) => {
                let fps: Option<u32> = resolve_one_fps(fps_override, self.config.one_fps_override());
                self.audio = match audio {
                    Some(a) => a,
                    None => self.config.audio_default,
                };
                self.notify_start = notify_start;
                self.last_error = None;
                self.capture_output = Some(name.clone());
                self.capture_mode = Some("one".to_owned());
                proof {
                    reveal_strlit("one");
                    reveal_strlit("region");
                    assert("one"@.len() != "region"@.len());
                }
                self.state = State::Starting;
                self.pending = Pending::Start { geometry: None, output: Some(name), fps };
                Step::PrepareOutput
            },
        }
    }

    fn fail_start(&mut self, code: MachineCode, message: &str) -> (r: Step)
        requires
            old(self)@.selector is None,
            old(self)@.recorder is None,
            old(self)@.pair is None,
            old(self)@.both is None,
            old(self)@.output_path is None,
            old(self)@.started_at is None,
            old(self)@.stopping_pid is None,
        ensures
            final(self)@.wf(),
            final(self).calls() == old(self).calls(),
            final(self).keeps_ports(*old(self)),
            final(self).spawner_port() == old(self).spawner_port(),
            start_failed(old(self)@, code, message@, final(self)@, r@),
    {
        self.state = State::Idle;
        self.capture_output = None;
        self.capture_mode = None;
        self.pending = Pending::Nothing;
        self.last_error = Some(message.to_owned());
        Step::Done(CommandResult::err(code, message))
    }

    /// The place for the file of the recording that is about to start.
    pub fn provide_output(&mut self, site: &OutputSite) -> (r: Step)
        requires
            old(self)@.wf(),
            old(self)@.state == State::Starting,
        ensures
            final(self)@.wf(),
            grown(final(self).calls(), old(self).calls()),
            final(self).keeps_ports(*old(self)),
            output_run(
                old(self)@,
                site@,
                added(final(self).calls(), old(self).calls()),
                final(self)@,
                r@,
            ),
    {
        let for_both = match &self.pending {
            Pending::BothStart { .. } => true,
            _ => false,
        };
        if for_both {
            return self.start_pair(site);
        }
        let ghost start = self.ports@;
        let ghost pre = self@;
        if let Err(e) = &site.ready {
            proof {
                lemma_added(start, start, Seq::empty());
            }
            return self.fail_start(
                MachineCode::IoError,
                concat2("cannot create output_dir: ", e.to_text().as_str()).as_str(),
            );
        }
        let time = self.ports.now();
        let ghost first = seq![PortCall::Now { time }];
        let ghost mid = self.ports@;
        proof {
            assert(mid =~= start + first);
            lemma_added(mid, start, first);
        }
        let allocated = unique_output_path(self.config.output_dir.as_str(), time, &site.taken);
        let ghost chosen = allocated;
        let step = self.start_at(allocated, site.cwd.as_str());
        proof {
            lemma_after(start, first, mid, self.ports@);
            let all = added(self.ports@, start);
            assert(all.skip(1) =~= added(self.ports@, mid));
            lemma_start(pre, site@, time, chosen, all, self@, step@);
        }
        step
    }

    fn start_at(&mut self, allocated: Result<String, PortError>, cwd: &str) -> (r: Step)
        requires
            old(self)@.wf(),
            old(self)@.state == State::Starting,
            old(self)@.pending is Start,
        ensures
            final(self)@.wf(),
            grown(final(self).calls(), old(self).calls()),
            final(self).keeps_ports(*old(self)),
            named_run(
                old(self)@,
                allocated,
                cwd@,
                added(final(self).calls(), old(self).calls()),
                final(self)@,
                r@,
            ),
    {
        proof {
            lemma_added(self.ports@, self.ports@, Seq::empty());
        }
        let free = match allocated {
            Ok(p) => p,
            Err(e) => {
                return self.fail_start(
                    MachineCode::IoError,
                    concat2("cannot allocate output path: ", e.to_text().as_str()).as_str(),
                );
            },
        };
        let path = absolutize_path(free.as_str(), cwd);
        let (geometry, output, fps): (Option<String>, Option<String>, Option<u32>) =
            match &self.pending {
            Pending::Start { geometry, output, fps } => (
                clone_opt(geometry),
                clone_opt(output),
                *fps,
            ),
            _ => (None, None, None),
        };
        if geometry.is_none() && clean(borrow_opt(&output)).is_none() {
            return self.fail_start(
                MachineCode::Invalid,
                "internal: fullscreen spawn without resolved output",
            );
        }
        self.spawn_recorder(path, geometry, output, fps)
    }

    fn spawn_recorder(
        &mut self,
        path: String,
        geometry: Option<String>,
        output: Option<String>,
        fps: Option<u32>,
    ) -> (r: Step)
        requires
            old(self)@.wf(),
            old(self)@.state == State::Starting,
            old(self)@.pending is Start,
        ensures
            final(self)@.wf(),
            grown(final(self).calls(), old(self).calls()),
            final(self).keeps_ports(*old(self)),
            spawned_run(
                old(self)@,
                path@,
                opt_view(geometry),
                opt_view(output),
                fps,
                added(final(self).calls(), old(self).calls()),
                final(self)@,
                r@,
            ),
    {
        let ghost start = self.ports@;
        let ghost pre = self@;
        let argv = build_wf_recorder_argv(
            borrow_opt(&geometry),
            self.audio,
            path.as_str(),
            borrow_opt(&output),
            fps,
        );
        let spawned = self.ports.spawn(&argv, SpawnOpts { new_process_group: true });
        let ghost c0 = PortCall::Spawn {
            who: start.len() as int,
            argv: views(argv@),
            new_group: true,
            failed: failure(spawned),
        };
        match spawned {
            Err(e) => {
                proof {
                    assert(self.ports@ =~= start + seq![c0]);
                    lemma_added(self.ports@, start, seq![c0]);
                }
                self.output_path = None;
                self.started_at = None;
                self.fail_start(
                    MachineCode::SpawnFailed,
                    concat2("failed to spawn wf-recorder: ", e.to_text().as_str()).as_str(),
                )
            },
            Ok(child) => {
                let time = self.ports.now();
                let ghost first = seq![c0, PortCall::Now { time }];
                let ghost mid = self.ports@;
                assert(mid =~= start + first);
                self.recorder_child = Some(child);
                self.output_path = Some(path);
                self.started_at = Some(time);
                self.state = State::Recording;
                self.pending = Pending::Nothing;
                let step = self.settle();
                proof {
                    lemma_after(start, first, mid, self.ports@);
                    assert(added(self.ports@, start).skip(2) =~= added(self.ports@, mid));
                }
                step
            },
        }
    }

    fn settle(&mut self) -> (r: Step)
        requires
            old(self)@.wf(),
            old(self)@.state == State::Recording,
            old(self)@.recorder is Some,
        ensures
            final(self)@.wf(),
            grown(final(self).calls(), old(self).calls()),
            final(self).keeps_ports(*old(self)),
            final(self).spawner_port() == old(self).spawner_port(),
            settled_run(
                old(self)@,
                added(final(self).calls(), old(self).calls()),
                final(self)@,
                r@,
            ),
    {
        let ghost start = self.ports@;
        self.ports.sleep(200);
        let ghost mid = self.ports@;
        let ghost first = seq![PortCall::Sleep { millis: 200 }];
        assert(mid =~= start + first);
        let early = self.poll_recorder_exited();
        let ghost after = self.ports@;
        proof {
            lemma_after(start, first, mid, after);
            assert(added(after, start).skip(1) =~= added(after, mid));
        }
        if let Some(step) = early {
            return step;
        }
        let ghost looked = added(after, start);
        if self.notify_start && self.config.notify && self.config.notify_on_start_cli {
            let body = match &self.capture_output {
                Some(o) => concat2("Recording ", o.as_str()),
                None => "Recording started".to_owned(),
            };
            let told = self.ports.notify("record-ui", body.as_str());
            proof {
                let c = PortCall::Notify {
                    title: "record-ui"@,
                    body: body@,
                    failed: failure(told),
                };
                lemma_grown(after, start);
                assert(self.ports@ =~= start + looked.push(c));
                lemma_added(self.ports@, start, looked.push(c));
            }
        }
        let msg = match &self.capture_output {
            Some(o) => concat2("Recording ", o.as_str()),
            None => "recording started".to_owned(),
        };
        Step::Done(CommandResult::ok_msg(msg.as_str()))
    }

    // -----------------------------------------------------------------------
    // Stopping
    // -----------------------------------------------------------------------

    fn poll_recorder_exited(&mut self) -> (r: Option<Step>)
        requires
            old(self)@.wf(),
            old(self)@.state == State::Recording,
            old(self)@.recorder is Some,
        ensures
            final(self)@.wf(),
            grown(final(self).calls(), old(self).calls()),
            final(self).keeps_ports(*old(self)),
            final(self).spawner_port() == old(self).spawner_port(),
            exited_run(
                old(self)@,
                added(final(self).calls(), old(self).calls()),
                final(self)@,
                opt_step(r),
            ),
    {
        let ghost start = self.ports@;
        let mut child = self.recorder_child.take().unwrap();
        let looked = self.ports.try_wait(&mut child);
        let ghost first = seq![PortCall::TryWait { who: child.who(), answer: answer(looked) }];
        let ghost mid = self.ports@;
        proof {
            assert(mid =~= start + first);
            lemma_added(mid, start, first);
        }
        match looked {
            Ok(None) => {
                self.recorder_child = Some(child);
                None
            },
            Ok(Some(status)) => {
                let stderr = self.ports.take_stderr_tail(&mut child);
                proof {
                    let both = first.push(
                        PortCall::Stderr { who: child.who(), text: stderr@ },
                    );
                    assert(self.ports@ =~= start + both);
                    lemma_added(self.ports@, start, both);
                }
                self.state = State::Stopping;
                self.pending = Pending::Finish { status, cooperative: false, stderr };
                Some(Step::CheckOutput)
            },
            Err(e) => {
                self.ports.force_reap_recorder(&mut child);
                let msg = concat2("recorder poll failed: ", e.to_text().as_str());
                self.clear_session();
                self.last_error = Some(msg.clone());
                proof {
                    lemma_after(start, first, mid, self.ports@);
                    assert(added(self.ports@, start).skip(1) =~= added(self.ports@, mid));
                }
                Some(Step::Done(CommandResult::err(MachineCode::IoError, msg.as_str())))
            },
        }
    }

    fn clear_session(&mut self)
        ensures
            final(self)@ == old(self)@.over(),
            final(self).calls() == old(self).calls(),
            final(self).keeps_ports(*old(self)),
            final(self).spawner_port() == old(self).spawner_port(),
    {
        self.state = State::Idle;
        self.recorder_child = None;
        self.duo = None;
        self.both = None;
        self.output_path = None;
        self.started_at = None;
        self.stopping_pid = None;
        self.capture_output = None;
        self.capture_mode = None;
        self.pending = Pending::Nothing;
    }

    fn cancel_slurp(&mut self) -> (r: Step)
        requires
            old(self)@.wf(),
            old(self)@.state == State::SelectingRegion,
        ensures
            final(self)@.wf(),
            grown(final(self).calls(), old(self).calls()),
            final(self).keeps_ports(*old(self)),
            final(self).spawner_port() == old(self).spawner_port(),
            cancel_run(
                old(self)@,
                added(final(self).calls(), old(self).calls()),
                final(self)@,
                r@,
            ),
    {
        let mut child = self.slurp_child.take().unwrap();
        self.ports.force_reap_slurp(&mut child);
        self.state = State::Idle;
        Step::Done(CommandResult::cancelled())
    }

    fn abort_starting(&mut self) -> (r: Step)
        requires
            old(self)@.wf(),
            old(self)@.state == State::Starting,
        ensures
            final(self)@.wf(),
            final(self).calls() == old(self).calls(),
            final(self).keeps_ports(*old(self)),
            final(self).spawner_port() == old(self).spawner_port(),
            final(self)@ == old(self)@.over(),
            r@ == StepView::Done(ResultView::done("aborted start (no child)"@)),
    {
        self.clear_session();
        Step::Done(CommandResult::ok_msg("aborted start (no child)"))
    }

    fn stop_recording(&mut self) -> (r: Step)
        requires
            old(self)@.wf(),
            old(self)@.state == State::Recording,
            old(self)@.recorder is Some,
        ensures
            final(self)@.wf(),
            grown(final(self).calls(), old(self).calls()),
            final(self).keeps_ports(*old(self)),
            final(self).spawner_port() == old(self).spawner_port(),
            stop_recorder_run(
                old(self)@,
                added(final(self).calls(), old(self).calls()),
                final(self)@,
                r@,
            ),
    {
        let ghost start = self.ports@;
        let ghost pre = self@;
        self.stop_sent_signals = Vec::new();
        let mut child = self.recorder_child.take().unwrap();
        let pid: u32 = self.ports.child_id(&child);
        self.stopping_pid = Some(pid);
        let signalled = self.ports.signal_group(&mut child, Signal::Interrupt);
        if let Err(e) = &signalled {
            self.last_error = Some(
                concat2("SIGINT to process group failed: ", e.to_text().as_str()),
            );
        }
        self.stop_sent_signals.push(Signal::Interrupt);
        let waited = self.ports.wait_timeout(&mut child, self.config.stop_timeout());
        let ghost first = seq![
            PortCall::Id { who: child.who(), pid },
            PortCall::Signal {
                who: child.who(),
                group: true,
                signal: Signal::Interrupt,
                failed: failure(signalled),
            },
            PortCall::WaitTimeout {
                who: child.who(),
                millis: pre.config.stop_timeout_ms,
                answer: answer(waited),
            },
        ];
        let ghost mid = self.ports@;
        proof {
            assert(mid =~= start + first);
            assert(self.stop_sent_signals@ =~= seq![Signal::Interrupt]);
        }
        match waited {
            Ok(Some(status)) => {
                let stderr = self.ports.take_stderr_tail(&mut child);
                proof {
                    let all = first.push(PortCall::Stderr { who: child.who(), text: stderr@ });
                    assert(self.ports@ =~= start + all);
                    lemma_added(self.ports@, start, all);
                }
                self.state = State::Stopping;
                self.pending = Pending::Finish { status, cooperative: true, stderr };
                return Step::CheckOutput;
            },
            Ok(None) => {},
            Err(e) => {
                self.last_error = Some(
                    concat2("wait after SIGINT failed: ", e.to_text().as_str()),
                );
            },
        }
        let step = self.terminate_recorder(child);
        proof {
            lemma_after(start, first, mid, self.ports@);
            assert(added(self.ports@, start).skip(3) =~= added(self.ports@, mid));
        }
        step
    }

    fn terminate_recorder(&mut self, child: Child<S::Child>) -> (r: Step)
        requires
            old(self)@.state == State::Recording,
            old(self)@.selector is None,
            old(self)@.recorder is None,
            old(self)@.pair is None,
            old(self)@.both is None,
            old(self)@.pending is Nothing,
            old(self)@.under_way(),
        ensures
            final(self)@.wf(),
            grown(final(self).calls(), old(self).calls()),
            final(self).keeps_ports(*old(self)),
            final(self).spawner_port() == old(self).spawner_port(),
            terminate_run(
                RecView { recorder: Some(child.who()), ..old(self)@ },
                added(final(self).calls(), old(self).calls()),
                final(self)@,
                r@,
            ),
    {
        let mut child = child;
        let ghost start = self.ports@;
        let ghost pre = self@;
        let signalled = self.ports.signal_group(&mut child, Signal::Terminate);
        self.stop_sent_signals = Vec::new();
        self.stop_sent_signals.push(Signal::Interrupt);
        self.stop_sent_signals.push(Signal::Terminate);
        let waited = self.ports.wait_timeout(&mut child, self.config.stop_term_timeout());
        let ghost first = seq![
            PortCall::Signal {
                who: child.who(),
                group: true,
                signal: Signal::Terminate,
                failed: failure(signalled),
            },
            PortCall::WaitTimeout {
                who: child.who(),
                millis: pre.config.stop_term_timeout_ms,
                answer: answer(waited),
            },
        ];
        let ghost mid = self.ports@;
        proof {
            assert(mid =~= start + first);
            assert(self.stop_sent_signals@ =~= seq![Signal::Interrupt, Signal::Terminate]);
        }
        if let Ok(Some(status)) = waited {
            let stderr = self.ports.take_stderr_tail(&mut child);
            proof {
                let all = first.push(PortCall::Stderr { who: child.who(), text: stderr@ });
                assert(self.ports@ =~= start + all);
                lemma_added(self.ports@, start, all);
            }
            self.state = State::Stopping;
            self.pending = Pending::Finish { status, cooperative: true, stderr };
            return Step::CheckOutput;
        }
        let step = self.kill_recorder(child);
        proof {
            lemma_after(start, first, mid, self.ports@);
            assert(added(self.ports@, start).skip(2) =~= added(self.ports@, mid));
        }
        step
    }

    fn kill_recorder(&mut self, child: Child<S::Child>) -> (r: Step)
        requires
            old(self)@.state == State::Recording,
            old(self)@.selector is None,
            old(self)@.recorder is None,
            old(self)@.pair is None,
            old(self)@.both is None,
            old(self)@.pending is Nothing,
            old(self)@.under_way(),
        ensures
            final(self)@.wf(),
            grown(final(self).calls(), old(self).calls()),
            final(self).keeps_ports(*old(self)),
            final(self).spawner_port() == old(self).spawner_port(),
            kill_run(
                RecView { recorder: Some(child.who()), ..old(self)@ },
                added(final(self).calls(), old(self).calls()),
                final(self)@,
                r@,
            ),
    {
        let mut child = child;
        let ghost start = self.ports@;
        let ghost pre = self@;
        let ghost who = child.who();
        let signalled = self.ports.signal_group(&mut child, Signal::Kill);
        let ghost first = seq![
            PortCall::Signal {
                who,
                group: true,
                signal: Signal::Kill,
                failed: failure(signalled),
            },
        ];
        let ghost h1 = self.ports@;
        assert(h1 =~= start + first);
        self.stop_sent_signals = Vec::new();
        self.stop_sent_signals.push(Signal::Interrupt);
        self.stop_sent_signals.push(Signal::Terminate);
        self.stop_sent_signals.push(Signal::Kill);
        assert(self.stop_sent_signals@ =~= seq![
            Signal::Interrupt,
            Signal::Terminate,
            Signal::Kill,
        ]);
        self.ports.force_reap_after_kill(&mut child);
        let ghost h2 = self.ports@;
        let ghost reaped = added(h2, h1);
        let stderr = self.ports.take_stderr_tail(&mut child);
        let ghost h3 = self.ports@;
        proof {
            lemma_grown(h2, h1);
        }
        let mut msg =
            "stop timed out after SIGINT/SIGTERM; nuclear SIGKILL used to reap; file may be corrupt".to_owned();
        if let Some(p) = &self.output_path {
            msg.append(concat3(" (", p.as_str(), ")").as_str());
        }
        append_stderr(&mut msg, stderr.as_str());
        assert(msg@ == stop_timed_out(pre.output_path, stderr@));
        self.clear_session();
        self.last_error = Some(msg.clone());
        self.tell(msg.as_str());
        proof {
            let c = PortCall::Stderr { who, text: stderr@ };
            let last = added(self.ports@, h3);
            lemma_grown(self.ports@, h3);
            let all = first + reaped + seq![c] + last;
            assert(self.ports@ =~= start + all);
            lemma_added(self.ports@, start, all);
            let k = 1 + reaped.len() as int;
            assert(all.subrange(1, k) =~= reaped);
            assert(all[k] == c);
            assert(all.skip(k + 1) =~= last);
            assert(killed_run(all.subrange(1, k), who, true));
            assert((RecView { recorder: Some(who), ..pre }).recorder->0 == who);
        }
        Step::Done(CommandResult::err(MachineCode::StopTimeout, msg.as_str()))
    }

    fn tell(&mut self, message: &str)
        ensures
            final(self)@ == old(self)@,
            grown(final(self).calls(), old(self).calls()),
            final(self).keeps_ports(*old(self)),
            final(self).spawner_port() == old(self).spawner_port(),
            told(
                old(self)@.config.notify,
                message@,
                added(final(self).calls(), old(self).calls()),
            ),
    {
        let ghost start = self.ports@;
        if self.config.notify {
            let r = self.ports.notify("record-ui", message);
            proof {
                let c = PortCall::Notify { title: "record-ui"@, body: message@, failed: failure(r) };
                assert(self.ports@ =~= start + seq![c]);
                lemma_added(self.ports@, start, seq![c]);
            }
        } else {
            proof {
                lemma_added(start, start, Seq::empty());
            }
        }
    }

    /// Stop whatever is under way; at rest there is nothing to stop.
    pub fn stop(&mut self) -> (r: Step)
        requires
            old(self)@.wf(),
        ensures
            final(self)@.wf(),
            grown(final(self).calls(), old(self).calls()),
            final(self).keeps_ports(*old(self)),
            final(self).spawner_port() == old(self).spawner_port(),
            stop_run(
                old(self)@,
                added(final(self).calls(), old(self).calls()),
                final(self)@,
                r@,
            ),
    {
        proof {
            lemma_added(self.ports@, self.ports@, Seq::empty());
        }
        match self.state {
            State::Idle => Step::Done(CommandResult::ok_msg("already idle")),
            State::SelectingRegion => self.cancel_slurp(),
            State::Starting => self.abort_starting(),
            State::Recording => if self.duo.is_some() {
                self.stop_pair()
            } else {
                self.stop_recording()
            },
            State::Stopping => Step::Done(CommandResult::ok_msg("already stopping/idle")),
        }
    }

    /// Stop whatever is under way because the session ends: the recordings of two
    /// monitors are kept, and not composed.
    pub fn shut_down(&mut self) -> (r: Step)
        requires
            old(self)@.wf(),
        ensures
            final(self)@.wf(),
            grown(final(self).calls(), old(self).calls()),
            final(self).keeps_ports(*old(self)),
            final(self).spawner_port() == old(self).spawner_port(),
            shutdown_run(
                old(self)@,
                added(final(self).calls(), old(self).calls()),
                final(self)@,
                r@,
            ),
    {
        if self.duo.is_some() {
            self.quit_pair()
        } else {
            self.stop()
        }
    }

    /// At rest, start a region; otherwise stop what is under way.
    pub fn toggle_region(&mut self, audio: Option<bool>, notify_start: bool) -> (r: Step)
        requires
            old(self)@.wf(),
        ensures
            final(self)@.wf(),
            grown(final(self).calls(), old(self).calls()),
            final(self).keeps_ports(*old(self)),
            toggle_run(
                old(self)@,
                audio,
                notify_start,
                added(final(self).calls(), old(self).calls()),
                final(self)@,
                r@,
            ),
    {
        match self.state {
            State::Idle => self.start_region(audio, notify_start),
            _ => self.stop(),
        }
    }

    /// Look how the session gets on: a region selected, or a recorder gone.
    pub fn poll(&mut self) -> (r: Option<Step>)
        requires
            old(self)@.wf(),
        ensures
            final(self)@.wf(),
            grown(final(self).calls(), old(self).calls()),
            final(self).keeps_ports(*old(self)),
            final(self).spawner_port() == old(self).spawner_port(),
            poll_run(
                old(self)@,
                added(final(self).calls(), old(self).calls()),
                final(self)@,
                opt_step(r),
            ),
    {
        proof {
            lemma_added(self.ports@, self.ports@, Seq::empty());
        }
        match self.state {
            State::SelectingRegion => self.poll_region_selection(),
            State::Recording => if self.duo.is_some() {
                self.poll_pair()
            } else {
                self.poll_recorder_exited()
            },
            _ => None,
        }
    }

    // -----------------------------------------------------------------------
    // Finishing
    // -----------------------------------------------------------------------

    /// What was found of the file of the recording that has ended: whether it is
    /// there and not empty, or why that cannot be told.
    pub fn provide_check(&mut self, file_nonempty: Result<bool, PortError>) -> (r: CommandResult)
        requires
            old(self)@.wf(),
            old(self)@.state == State::Stopping,
            !(old(self)@.pending is BothTemps),
        ensures
            final(self)@.wf(),
            grown(final(self).calls(), old(self).calls()),
            final(self).clock_port() == old(self).clock_port(),
            final(self).spawner_port() == old(self).spawner_port(),
            !r.ok || !old(self)@.config.copy_path ==> final(self).clipboard_port()
                == old(self).clipboard_port(),
            !old(self)@.config.notify ==> final(self).notifier_port()
                == old(self).notifier_port(),
            check_run(
                old(self)@,
                answer(file_nonempty),
                added(final(self).calls(), old(self).calls()),
                final(self)@,
                r@,
            ),
    {
        let for_both = match &self.pending {
            Pending::BothFinal { .. } => true,
            _ => false,
        };
        if for_both {
            return self.finish_pair(file_nonempty);
        }
        let ghost pre = self@;
        let (status, cooperative, stderr) = match &self.pending {
            Pending::Finish { status, cooperative, stderr } => (
                *status,
                *cooperative,
                stderr.clone(),
            ),
            _ => (ExitStatus::Code(0), false, String::new()),
        };
        let path = match &self.output_path {
            Some(p) => p.clone(),
            None => String::new(),
        };
        assert(path@ == pre.output_path->0);
        self.clear_session();
        self.last_child_exit = Some(status);
        let failed = match file_nonempty {
            Err(e) => Some(concat2("cannot stat output file: ", e.to_text().as_str())),
            Ok(false) => Some(
                concat3("recording failed: output missing or empty (", path.as_str(), ")"),
            ),
            Ok(true) => if cooperative {
                None
            } else {
                Some(
                    concat4(
                        "recording failed: unexpected child exit (",
                        status.to_text().as_str(),
                        "), path=",
                        path.as_str(),
                    ),
                )
            },
        };
        if let Some(base) = failed {
            let mut msg = base;
            append_stderr(&mut msg, stderr.as_str());
            assert(finish_failure(status, cooperative, stderr@, path@, answer(file_nonempty))
                == Some(msg@));
            self.last_error = Some(msg.clone());
            self.tell(msg.as_str());
            return CommandResult::err(MachineCode::IoError, msg.as_str());
        }
        self.last_success_path = Some(path.clone());
        self.last_error = None;
        self.announce(path.as_str(), status)
    }

    fn announce(&mut self, path: &str, status: ExitStatus) -> (r: CommandResult)
        ensures
            final(self)@ == old(self)@,
            grown(final(self).calls(), old(self).calls()),
            final(self).clock_port() == old(self).clock_port(),
            final(self).spawner_port() == old(self).spawner_port(),
            !old(self)@.config.copy_path ==> final(self).clipboard_port()
                == old(self).clipboard_port(),
            !old(self)@.config.notify ==> final(self).notifier_port()
                == old(self).notifier_port(),
            saved_run(
                old(self)@.config,
                path@,
                status,
                added(final(self).calls(), old(self).calls()),
                r@,
            ),
    {
        let ghost start = self.ports@;
        let mut warnings: Vec<String> = Vec::new();
        let ghost mut made: Seq<PortCall> = Seq::empty();
        let ghost mut copy_failed: Option<Seq<char>> = None;
        let ghost mut notify_failed: Option<Seq<char>> = None;
        proof {
            assert(self.ports@ =~= start + made);
        }
        if self.config.copy_path {
            let r = self.ports.copy_text(path);
            proof {
                copy_failed = failure(r);
                made = made.push(PortCall::Copy { text: path@, failed: copy_failed });
                assert(self.ports@ =~= start + made);
            }
            if let Err(e) = r {
                warnings.push(concat2("clipboard failed: ", e.to_text().as_str()));
            }
        }
        assert(views(warnings@) =~= saved_warnings(copy_failed, None));
        if self.config.notify {
            let body = if self.config.copy_path && warnings.len() == 0 {
                concat3("Saved ", path, "\nPath copied to clipboard")
            } else if self.config.copy_path {
                concat3("Saved ", path, "\n(clipboard warning)")
            } else {
                concat2("Saved ", path)
            };
            assert(body@ == saved_body(path@, self.config.copy_path, copy_failed is Some));
            let r = self.ports.notify("record-ui", body.as_str());
            proof {
                notify_failed = failure(r);
                made = made.push(
                    PortCall::Notify {
                        title: "record-ui"@,
                        body: body@,
                        failed: notify_failed,
                    },
                );
                assert(self.ports@ =~= start + made);
            }
            if let Err(e) = r {
                warnings.push(concat2("notify failed: ", e.to_text().as_str()));
            }
        }
        proof {
            lemma_added(self.ports@, start, made);
            assert(views(warnings@) =~= saved_warnings(copy_failed, notify_failed));
        }
        let mut message = concat2("saved ", path);
        if !status.success() {
            message.append(concat3(" (child ", status.to_text().as_str(), ")").as_str());
        }
        assert(message@ == saved_message(path@, status));
        CommandResult::with_warnings(message.as_str(), warnings)
    }

    // -----------------------------------------------------------------------
    // Looking at and changing the recorder
    // -----------------------------------------------------------------------

    /// Replace the inventory of outputs that is looked up.
    pub fn set_forced_output_inventory(&mut self, inventory: Option<Vec<String>>)
        ensures
            final(self)@ == (RecView {
                forced_outputs: match inventory {
                    Some(v) => Some(views(v@)),
                    None => None,
                },
                ..old(self)@
            }),
            final(self).calls() == old(self).calls(),
            final(self).keeps_ports(*old(self)),
            final(self).spawner_port() == old(self).spawner_port(),
    {
        self.forced_output_inventory = inventory;
    }

    /// The state of the session.
    pub fn state(&self) -> (r: State)
        ensures
            r == self@.state,
    {
        self.state
    }

    /// The configuration in force.
    pub fn config(&self) -> (r: &Config)
        ensures
            r@ == self@.config,
    {
        &self.config
    }

    /// Change the configuration; a relative output directory is taken below `cwd`.
    pub fn set_config(&mut self, config: Config, cwd: &str)
        ensures
            final(self)@ == (RecView { config: config@.with_paths(cwd@), ..old(self)@ }),
            final(self).calls() == old(self).calls(),
            final(self).keeps_ports(*old(self)),
            final(self).spawner_port() == old(self).spawner_port(),
    {
        let mut config = config;
        config.normalize_paths(cwd);
        self.config = config;
    }

    /// The spawner port.
    pub closed spec fn spawner_port(&self) -> S {
        self.ports.spawner()
    }

    /// The clock port.
    pub closed spec fn clock_port(&self) -> C {
        self.ports.clock()
    }

    /// The recorder that is running; of two, that of the primary monitor.
    pub closed spec fn recorder_handle(&self) -> Option<Child<S::Child>> {
        match self.recorder_child {
            Some(c) => Some(c),
            None => match self.duo {
                Some(d) => Some(d.a),
                None => None,
            },
        }
    }

    /// The clock and the clipboard are as they were; so is the notifier where
    /// notifications are off.
    pub open spec fn keeps_ports(self, before: Self) -> bool {
        &&& self.clock_port() == before.clock_port()
        &&& self.clipboard_port() == before.clipboard_port()
        &&& !before@.config.notify ==> self.notifier_port() == before.notifier_port()
    }

    /// The notifier port.
    pub closed spec fn notifier_port(&self) -> N {
        self.ports.notifier()
    }

    /// The clipboard port.
    pub closed spec fn clipboard_port(&self) -> Cl {
        self.ports.clipboard()
    }

    /// The spawner port.
    pub fn spawner(&self) -> (r: &S)
        ensures
            *r == self.spawner_port(),
    {
        self.ports.see_spawner()
    }

    /// The spawner port, to change it. The history shows that it was lent out.
    pub fn spawner_mut(&mut self) -> (r: &mut S)
        ensures
            *r == old(self).spawner_port(),
            final(self).spawner_port() == *final(r),
            final(self)@ == old(self)@,
            final(self).calls() == old(self).calls().push(PortCall::Lend),
            final(self).clock_port() == old(self).clock_port(),
            final(self).notifier_port() == old(self).notifier_port(),
            final(self).clipboard_port() == old(self).clipboard_port(),
    {
        self.ports.lend_spawner()
    }

    /// The notifier port.
    pub fn notifier(&self) -> (r: &N)
        ensures
            *r == self.notifier_port(),
    {
        self.ports.see_notifier()
    }

    /// The clipboard port.
    pub fn clipboard(&self) -> (r: &Cl)
        ensures
            *r == self.clipboard_port(),
    {
        self.ports.see_clipboard()
    }

    /// The signals sent during the current or last stop.
    pub fn stop_sent_signals(&self) -> (r: &Vec<Signal>)
        ensures
            r@ == self@.stop_sent_signals,
    {
        &self.stop_sent_signals
    }

    /// The path of the last recording that was saved.
    pub fn last_success_path(&self) -> (r: Option<&str>)
        ensures
            opt_str_view(r) == self@.last_success_path,
    {
        borrow_opt(&self.last_success_path)
    }

    /// How the last recorder that was stopped or lost exited.
    pub fn last_child_exit(&self) -> (r: Option<ExitStatus>)
        ensures
            r == self@.last_child_exit,
    {
        self.last_child_exit
    }

    /// The path that the current recording is written to.
    pub fn output_path(&self) -> (r: Option<&str>)
        ensures
            opt_str_view(r) == self@.output_path,
    {
        borrow_opt(&self.output_path)
    }

    /// The snapshot of the session at `now`, with the recorder's process id.
    pub fn status_at(&self, now: Timestamp, pid: Option<u32>) -> (r: Status)
        ensures
            r@ == self@.status_at(now, pid),
    {
        let active = match self.state {
            State::Recording => true,
            State::Stopping => true,
            _ => false,
        };
        let capturing = active || self.state == State::Starting;
        let started_at_unix: Option<u64> = match self.started_at {
            Some(t) => t.unix_seconds(),
            None => None,
        };
        let elapsed_ms: Option<u64> = match self.started_at {
            Some(t) => if active {
                now.millis_after(t)
            } else {
                None
            },
            None => None,
        };
        Status {
            state: self.state,
            output_path: clone_opt(&self.output_path),
            pid: match pid {
                Some(p) => Some(p),
                None => self.stopping_pid,
            },
            started_at_unix,
            audio: self.audio,
            last_error: clone_opt(&self.last_error),
            last_success_path: clone_opt(&self.last_success_path),
            elapsed_ms,
            capture_output: if capturing {
                clone_opt(&self.capture_output)
            } else {
                None
            },
            capture_mode: if capturing {
                clone_opt(&self.capture_mode)
            } else {
                None
            },
        }
    }

    /// A snapshot of the session: at a time that the clock gives, and with the
    /// process id of the recorder that is running.
    pub open spec fn is_status(&self, s: StatusView) -> bool {
        exists|now: Timestamp, pid: Option<u32>|
            {
                &&& s == #[trigger] self@.status_at(now, pid)
                &&& call_ensures(C::now, (&self.clock_port(),), now)
                &&& match self.recorder_handle() {
                    Some(c) => pid is Some && call_ensures(
                        <S::Child as ChildHandle>::id,
                        (&c.handle(),),
                        pid->0,
                    ),
                    None => pid is None,
                }
            }
    }

    /// The snapshot of the session now.
    pub fn status(&self) -> (r: Status)
        ensures
            self.is_status(r@),
    {
        let now = self.ports.see_time();
        let pid: Option<u32> = match &self.recorder_child {
            Some(c) => Some(c.see_id()),
            None => match &self.duo {
                Some(d) => Some(d.a.see_id()),
                None => None,
            },
        };
        let r = self.status_at(now, pid);
        assert(r@ == self@.status_at(now, pid));
        r
    }

    /// The process id shown is that of the recorder that is running, or of that of
    /// the primary monitor; while none is running there is none to ask.
    pub proof fn handle_while_recording(&self)
        ensures
            self.recorder_handle() is Some == (self@.recorder is Some || self@.pair is Some),
            self@.recorder is Some ==> self.recorder_handle()->0.who() == self@.recorder->0,
            self@.recorder is None && self@.pair is Some ==> self.recorder_handle()->0.who()
                == self@.pair->0.a,
    {
    }

    /// Every child in the history is named by the place of its start there, so two
    /// children never share a name.
    pub proof fn children_are_named(&self)
        ensures
            starts_named(self.calls()),
    {
        self.ports.lemma_starts_named();
    }

    /// End the children at once, without looking at any file: nothing is left
    /// running.
    pub fn release(&mut self)
        requires
            old(self)@.wf(),
        ensures
            final(self)@.wf(),
            grown(final(self).calls(), old(self).calls()),
            final(self).keeps_ports(*old(self)),
            final(self).spawner_port() == old(self).spawner_port(),
            release_run(
                old(self)@,
                added(final(self).calls(), old(self).calls()),
                final(self)@,
            ),
    {
        proof {
            lemma_added(self.ports@, self.ports@, Seq::empty());
        }
        if let Some(child) = self.slurp_child.take() {
            let mut child = child;
            self.ports.force_reap_slurp(&mut child);
        }
        if let Some(child) = self.recorder_child.take() {
            let mut child = child;
            self.ports.force_reap_recorder(&mut child);
        }
        if let Some(duo) = self.duo.take() {
            let mut duo = duo;
            self.ports.end_pair(&mut duo);
        }
        self.clear_session();
    }
}

proof fn lemma_start(
    pre: RecView,
    site: SiteView,
    time: Timestamp,
    allocated: Result<String, PortError>,
    calls: Seq<PortCall>,
    post: RecView,
    out: StepView,
)
    requires
        site.failed is None,
        calls.len() >= 1,
        calls[0] == (PortCall::Now { time }),
        path_allocation(allocated, pre.config.output_dir, time, site.taken),
        named_run(pre, allocated, site.cwd, calls.skip(1), post, out),
    ensures
        start_run(pre, site, calls, post, out),
{
    assert(calls[0] matches PortCall::Now { time: t } && t == time);
    assert(exists|a: Result<String, PortError>|
                {
                    &&& #[trigger] path_allocation(
                        a,
                        pre.config.output_dir,
                        time,
                        site.taken,
                    )
                    &&& named_run(pre, a, site.cwd, calls.skip(1), post, out)
                });
}

proof fn lemma_after(
    start: Seq<PortCall>,
    first: Seq<PortCall>,
    mid: Seq<PortCall>,
    now: Seq<PortCall>,
)
    requires
        mid == start + first,
        grown(now, mid),
    ensures
        grown(now, start),
        added(now, start) == first + added(now, mid),
{
    lemma_grown(now, mid);
    assert(now =~= start + (first + added(now, mid)));
    lemma_added(now, start, first + added(now, mid));
}

} // verus!
