//! Recording two monitors: two recorders handled as one, and the video composed
//! of their recordings.

use vstd::prelude::*;
use vstd::string::*;

use super::{lemma_after, BothPlan, OutputSite, Pending, Recorder, Step};
use crate::both::{
    both_alive, both_failed, both_finish_run, both_kill_run, both_named_run, both_poll_run,
    both_quit_end, both_quit_run, both_run, both_settled_run, both_spawned_run, both_start_run, both_stop_run, both_stopped,
    both_temps_run, both_terminate_run, compose_failure, compose_run, lost_composer_run,
    lost_message, lost_run, peer_ended, temp_failure,
};
use crate::dual::{
    both_allocation, build_both_argv, build_compose_argv, choose_layout, joined_stderr,
    not_two_message, reap_pair_run, running, unique_both_files, wait_pair_run, with_both_stderr,
    BothFiles, Duo, Pair,
};
use crate::output::append_stderr;
use crate::outputs::{output_views, OutputInfo};
use crate::ports::{
    absolutize_path, Clipboard, Clock, CommandSpawner, ExitStatus, Notifier, PortError, Signal,
    SpawnOpts, Timestamp,
};
use crate::reap::recorder_run;
use crate::recorder::opt_step;
use crate::session::{stop_timed_out, told, PendingView, RecView, SiteView, StepView};
use crate::status::{CommandResult, MachineCode, State};
use crate::text::{concat2, concat3, concat4, concat5, views};
use crate::trace::{added, answer, failure, grown, lemma_added, lemma_grown, PortCall};

verus! {

impl BothPlan {
    fn kept(&self) -> (r: String)
        ensures
            r@ == self.view().kept(),
    {
        concat5(" (recordings kept: ", self.a.as_str(), ", ", self.b.as_str(), ")")
    }
}

impl<S, C, N, Cl> Recorder<S, C, N, Cl> where
    S: CommandSpawner,
    C: Clock,
    N: Notifier,
    Cl: Clipboard,
 {
    // -----------------------------------------------------------------------
    // Starting
    // -----------------------------------------------------------------------

    /// Start to record two monitors. `outputs` lists the outputs that are there,
    /// with their layout.
    pub fn start_both(
        &mut self,
        audio: Option<bool>,
        notify_start: bool,
        outputs: &Vec<OutputInfo>,
    ) -> (r: Step)
        requires
            old(self)@.wf(),
        ensures
            final(self)@.wf(),
            grown(final(self).calls(), old(self).calls()),
            final(self).keeps_ports(*old(self)),
            final(self).spawner_port() == old(self).spawner_port(),
            both_run(
                old(self)@,
                audio,
                notify_start,
                output_views(outputs@),
                added(final(self).calls(), old(self).calls()),
                final(self)@,
                r@,
            ),
    {
        let ghost start = self.ports@;
        proof {
            lemma_added(start, start, Seq::empty());
        }
        if self.state != State::Idle {
            return Step::Done(
                CommandResult::err(
                    MachineCode::Busy,
                    concat2("busy: state is ", self.state.as_str()).as_str(),
                ),
            );
        }
        if outputs.len() != 2 {
            let msg = not_two_message(outputs);
            self.last_error = Some(msg.clone());
            return Step::Done(CommandResult::err(MachineCode::Invalid, msg.as_str()));
        }
        let has_composer = self.ports.probe("ffmpeg");
        let ghost c0 = PortCall::Probe { binary: "ffmpeg"@, found: has_composer };
        proof {
            assert(self.ports@ =~= start + seq![c0]);
            lemma_added(self.ports@, start, seq![c0]);
        }
        if !has_composer {
            let msg = concat2("missing hard dependency: ", "ffmpeg");
            self.last_error = Some(msg.clone());
            return Step::Done(CommandResult::err(MachineCode::DepMissing, msg.as_str()));
        }
        let has_recorder = self.ports.probe("wf-recorder");
        let ghost c1 = PortCall::Probe { binary: "wf-recorder"@, found: has_recorder };
        proof {
            assert(self.ports@ =~= start + seq![c0, c1]);
            lemma_added(self.ports@, start, seq![c0, c1]);
        }
        if !has_recorder {
            let msg = concat2("missing hard dependency: ", "wf-recorder");
            self.last_error = Some(msg.clone());
            return Step::Done(CommandResult::err(MachineCode::DepMissing, msg.as_str()));
        }
        match choose_layout(outputs) {
            None => {
                let msg = "both needs monitor positions; use Hyprland (hyprctl monitors -j)".to_owned();
                self.last_error = Some(msg.clone());
                Step::Done(CommandResult::err(MachineCode::Invalid, msg.as_str()))
            },
            Some(layout) => {
                self.audio = match audio {
                    Some(a) => a,
                    None => self.config.audio_default,
                };
                self.notify_start = notify_start;
                self.last_error = None;
                self.capture_output = Some(
                    concat3(layout.primary.name.as_str(), "+", layout.secondary.name.as_str()),
                );
                self.capture_mode = Some("both".to_owned());
                proof {
                    reveal_strlit("both");
                    reveal_strlit("region");
                    assert("both"@.len() != "region"@.len());
                }
                self.state = State::Starting;
                self.pending = Pending::BothStart { layout };
                Step::PrepareOutput
            },
        }
    }

    pub(super) fn start_pair(&mut self, site: &OutputSite) -> (r: Step)
        requires
            old(self)@.wf(),
            old(self)@.state == State::Starting,
            old(self)@.pending is BothStart,
        ensures
            final(self)@.wf(),
            grown(final(self).calls(), old(self).calls()),
            final(self).keeps_ports(*old(self)),
            both_start_run(
                old(self)@,
                site@,
                added(final(self).calls(), old(self).calls()),
                final(self)@,
                r@,
            ),
    {
        let ghost start = self.ports@;
        let ghost pre = self@;
        if let Err(e) = &site.ready {
            proof {
                lemma_added(start, start, Seq::empty());
            }
            return self.fail_start(
                MachineCode::IoError,
                concat2("cannot create output_dir: ", e.to_text().as_str()).as_str(),
            );
        }
        let time = self.ports.now();
        let ghost first = seq![PortCall::Now { time }];
        let ghost mid = self.ports@;
        proof {
            assert(mid =~= start + first);
            lemma_added(mid, start, first);
        }
        let allocated = unique_both_files(self.config.output_dir.as_str(), time, &site.taken);
        let ghost chosen = allocated;
        let step = self.start_pair_at(allocated, site.cwd.as_str());
        proof {
            lemma_after(start, first, mid, self.ports@);
            let all = added(self.ports@, start);
            assert(all.skip(1) =~= added(self.ports@, mid));
            lemma_both_start(pre, site@, time, chosen, all, self@, step@);
        }
        step
    }

    fn start_pair_at(&mut self, allocated: Result<BothFiles, PortError>, cwd: &str) -> (r: Step)
        requires
            old(self)@.wf(),
            old(self)@.state == State::Starting,
            old(self)@.pending is BothStart,
        ensures
            final(self)@.wf(),
            grown(final(self).calls(), old(self).calls()),
            final(self).keeps_ports(*old(self)),
            both_named_run(
                old(self)@,
                allocated,
                cwd@,
                added(final(self).calls(), old(self).calls()),
                final(self)@,
                r@,
            ),
    {
        proof {
            lemma_added(self.ports@, self.ports@, Seq::empty());
        }
        let files = match allocated {
            Ok(f) => f,
            Err(e) => {
                return self.fail_start(
                    MachineCode::IoError,
                    concat2("cannot allocate output path: ", e.to_text().as_str()).as_str(),
                );
            },
        };
        let mut pending = Pending::Nothing;
        std::mem::swap(&mut pending, &mut self.pending);
        match pending {
            Pending::BothStart { layout } => {
                let plan = BothPlan {
                    layout,
                    a: absolutize_path(files.a.as_str(), cwd),
                    b: absolutize_path(files.b.as_str(), cwd),
                };
                let path = absolutize_path(files.path.as_str(), cwd);
                self.spawn_pair(plan, path, Ghost(old(self)@))
            },
            _ => Step::PrepareOutput,
        }
    }

    fn spawn_pair(&mut self, plan: BothPlan, path: String, pre: Ghost<RecView>) -> (r: Step)
        requires
            pre@.wf(),
            pre@.state == State::Starting,
            pre@.pending is BothStart,
            old(self)@ == (RecView { pending: PendingView::Nothing, ..pre@ }),
        ensures
            final(self)@.wf(),
            grown(final(self).calls(), old(self).calls()),
            final(self).keeps_ports(*old(self)),
            both_spawned_run(
                pre@,
                plan.view(),
                path@,
                added(final(self).calls(), old(self).calls()),
                final(self)@,
                r@,
            ),
    {
        let ghost start = self.ports@;
        let argv_a = build_both_argv(
            plan.layout.primary.name.as_str(),
            self.audio,
            plan.a.as_str(),
        );
        let spawned_a = self.ports.spawn(&argv_a, SpawnOpts { new_process_group: true });
        let ghost c0 = PortCall::Spawn {
            who: start.len() as int,
            argv: views(argv_a@),
            new_group: true,
            failed: failure(spawned_a),
        };
        let mut child_a = match spawned_a {
            Ok(c) => c,
            Err(e) => {
                proof {
                    assert(self.ports@ =~= start + seq![c0]);
                    lemma_added(self.ports@, start, seq![c0]);
                }
                self.output_path = None;
                self.started_at = None;
                return self.fail_start(
                    MachineCode::SpawnFailed,
                    concat2("failed to spawn wf-recorder: ", e.to_text().as_str()).as_str(),
                );
            },
        };
        let argv_b = build_both_argv(
            plan.layout.secondary.name.as_str(),
            false,
            plan.b.as_str(),
        );
        let spawned_b = self.ports.spawn(&argv_b, SpawnOpts { new_process_group: true });
        let ghost c1 = PortCall::Spawn {
            who: start.len() as int + 1,
            argv: views(argv_b@),
            new_group: true,
            failed: failure(spawned_b),
        };
        let child_b = match spawned_b {
            Ok(c) => c,
            Err(e) => {
                let ghost first = seq![c0, c1];
                let ghost mid = self.ports@;
                assert(mid =~= start + first);
                self.ports.force_reap_recorder(&mut child_a);
                proof {
                    lemma_after(start, first, mid, self.ports@);
                    assert(added(self.ports@, start).skip(2) =~= added(self.ports@, mid));
                }
                self.output_path = None;
                self.started_at = None;
                return self.fail_start(
                    MachineCode::SpawnFailed,
                    concat2("failed to spawn wf-recorder: ", e.to_text().as_str()).as_str(),
                );
            },
        };
        let time = self.ports.now();
        let ghost first = seq![c0, c1, PortCall::Now { time }];
        let ghost mid = self.ports@;
        assert(mid =~= start + first);
        let ghost files = plan.view();
        let ghost pair = Pair { a: child_a.who(), b: child_b.who() };
        self.duo = Some(Duo { a: child_a, b: child_b, a_exit: None, b_exit: None });
        self.both = Some(plan);
        self.output_path = Some(path);
        self.started_at = Some(time);
        self.state = State::Recording;
        assert(self@ == pre@.recording_both(pair, files, path@, time));
        let step = self.settle_pair();
        proof {
            lemma_after(start, first, mid, self.ports@);
            assert(added(self.ports@, start).skip(3) =~= added(self.ports@, mid));
        }
        step
    }

    fn settle_pair(&mut self) -> (r: Step)
        requires
            old(self)@.wf(),
            old(self)@.pair is Some,
        ensures
            final(self)@.wf(),
            grown(final(self).calls(), old(self).calls()),
            final(self).keeps_ports(*old(self)),
            final(self).spawner_port() == old(self).spawner_port(),
            both_settled_run(
                old(self)@,
                added(final(self).calls(), old(self).calls()),
                final(self)@,
                r@,
            ),
    {
        let ghost start = self.ports@;
        self.ports.sleep(200);
        let ghost mid = self.ports@;
        let ghost first = seq![PortCall::Sleep { millis: 200 }];
        assert(mid =~= start + first);
        let early = self.poll_pair();
        let ghost after = self.ports@;
        let ghost looked = added(after, start);
        proof {
            lemma_after(start, first, mid, after);
            assert(looked.skip(1) =~= added(after, mid));
        }
        if let Some(step) = early {
            return step;
        }
        if self.notify_start && self.config.notify && self.config.notify_on_start_cli {
            let body = match &self.capture_output {
                Some(o) => concat2("Recording ", o.as_str()),
                None => "Recording started".to_owned(),
            };
            let told = self.ports.notify("record-ui", body.as_str());
            proof {
                let c = PortCall::Notify {
                    title: "record-ui"@,
                    body: body@,
                    failed: failure(told),
                };
                lemma_grown(after, start);
                assert(self.ports@ =~= start + looked.push(c));
                lemma_added(self.ports@, start, looked.push(c));
                assert(looked[1] == added(after, mid)[0]);
                assert(looked[2] == added(after, mid)[1]);
            }
        } else {
            proof {
                assert(looked[1] == added(after, mid)[0]);
                assert(looked[2] == added(after, mid)[1]);
            }
        }
        let msg = match &self.capture_output {
            Some(o) => concat2("Recording ", o.as_str()),
            None => "recording started".to_owned(),
        };
        Step::Done(CommandResult::ok_msg(msg.as_str()))
    }

    // -----------------------------------------------------------------------
    // A recorder that is gone
    // -----------------------------------------------------------------------

    pub(super) fn poll_pair(&mut self) -> (r: Option<Step>)
        requires
            old(self)@.wf(),
            old(self)@.pair is Some,
        ensures
            final(self)@.wf(),
            grown(final(self).calls(), old(self).calls()),
            final(self).keeps_ports(*old(self)),
            final(self).spawner_port() == old(self).spawner_port(),
            both_poll_run(
                old(self)@,
                added(final(self).calls(), old(self).calls()),
                final(self)@,
                opt_step(r),
            ),
            r is None == both_alive(
                added(final(self).calls(), old(self).calls()),
                old(self)@.pair->0,
                0,
            ),
    {
        let ghost start = self.ports@;
        let mut duo = self.duo.take().unwrap();
        let looked_a = self.ports.try_wait(&mut duo.a);
        let ghost first = seq![PortCall::TryWait { who: duo.a.who(), answer: answer(looked_a) }];
        let ghost mid = self.ports@;
        assert(mid =~= start + first);
        let gone_a = match &looked_a {
            Ok(None) => false,
            _ => true,
        };
        if gone_a {
            let step = self.lose(duo, true, looked_a);
            proof {
                lemma_after(start, first, mid, self.ports@);
                assert(added(self.ports@, start).skip(1) =~= added(self.ports@, mid));
            }
            return Some(step);
        }
        let looked_b = self.ports.try_wait(&mut duo.b);
        let ghost second = seq![
            PortCall::TryWait { who: duo.a.who(), answer: answer(looked_a) },
            PortCall::TryWait { who: duo.b.who(), answer: answer(looked_b) },
        ];
        let ghost mid = self.ports@;
        proof {
            assert(mid =~= start + second);
            lemma_added(mid, start, second);
        }
        let gone_b = match &looked_b {
            Ok(None) => false,
            _ => true,
        };
        if gone_b {
            let step = self.lose(duo, false, looked_b);
            proof {
                lemma_after(start, second, mid, self.ports@);
                assert(added(self.ports@, start).skip(2) =~= added(self.ports@, mid));
            }
            return Some(step);
        }
        self.duo = Some(duo);
        None
    }

    fn lose(
        &mut self,
        duo: Duo<S::Child>,
        primary: bool,
        looked: Result<Option<ExitStatus>, PortError>,
    ) -> (r: Step)
        requires
            old(self)@.state == State::Recording,
            old(self)@.selector is None,
            old(self)@.recorder is None,
            old(self)@.both is Some,
            !(looked matches Ok(None)),
        ensures
            final(self)@.wf(),
            grown(final(self).calls(), old(self).calls()),
            final(self).keeps_ports(*old(self)),
            final(self).spawner_port() == old(self).spawner_port(),
            lost_run(
                RecView { pair: Some(duo.pair()), ..old(self)@ },
                primary,
                answer(looked),
                added(final(self).calls(), old(self).calls()),
                final(self)@,
                Some(r@),
            ),
    {
        let mut duo = duo;
        let ghost start = self.ports@;
        let ghost pair = duo.pair();
        let ghost pre = RecView { pair: Some(pair), ..self@ };
        let ghost files = self@.both->0;
        let plan = self.both.take().unwrap();
        let ghost name = if primary {
            files.layout.primary.name
        } else {
            files.layout.secondary.name
        };
        let kept = plan.kept();
        let ghost w = answer(looked);
        let msg = match looked {
            Ok(found) => {
                let status = match found {
                    Some(s) => s,
                    None => ExitStatus::Code(0),
                };
                let stderr = if primary {
                    self.ports.take_stderr_tail(&mut duo.a)
                } else {
                    self.ports.take_stderr_tail(&mut duo.b)
                };
                let ghost mid = self.ports@;
                let ghost gone = if primary {
                    pair.a
                } else {
                    pair.b
                };
                let ghost first = seq![PortCall::Stderr { who: gone, text: stderr@ }];
                assert(mid =~= start + first);
                if primary {
                    self.ports.force_reap_recorder(&mut duo.b);
                } else {
                    self.ports.force_reap_recorder(&mut duo.a);
                }
                proof {
                    lemma_after(start, first, mid, self.ports@);
                    assert(added(self.ports@, start).skip(1) =~= added(self.ports@, mid));
                }
                let lost = if primary {
                    plan.layout.primary.name.as_str()
                } else {
                    plan.layout.secondary.name.as_str()
                };
                let mut msg = concat5(
                    "recording failed: unexpected exit of the recorder for ",
                    lost,
                    " (",
                    status.to_text().as_str(),
                    ")",
                );
                msg.append(kept.as_str());
                append_stderr(&mut msg, stderr.as_str());
                assert(msg@ == lost_message(name, status, files, stderr@));
                msg
            },
            Err(e) => {
                self.ports.end_pair(&mut duo);
                concat3("recorder poll failed: ", e.to_text().as_str(), kept.as_str())
            },
        };
        let ghost mid = self.ports@;
        let ghost reaped = added(mid, start);
        assert(peer_ended(files, pair, primary, w, reaped, msg@));
        self.clear_session();
        self.last_error = Some(msg.clone());
        self.tell(msg.as_str());
        proof {
            let last = added(self.ports@, mid);
            lemma_grown(mid, start);
            lemma_grown(self.ports@, mid);
            let all = reaped + last;
            assert(self.ports@ =~= start + all);
            lemma_added(self.ports@, start, all);
            let k = reaped.len() as int;
            assert(all.take(k) =~= reaped);
            assert(all.skip(k) =~= last);
            assert(pre.pair->0 == pair);
            assert(peer_ended(pre.both->0, pre.pair->0, primary, w, all.take(k), msg@));
        }
        Step::Done(CommandResult::err(MachineCode::IoError, msg.as_str()))
    }

    // -----------------------------------------------------------------------
    // Stopping
    // -----------------------------------------------------------------------

    pub(super) fn stop_pair(&mut self) -> (r: Step)
        requires
            old(self)@.wf(),
            old(self)@.pair is Some,
        ensures
            final(self)@.wf(),
            grown(final(self).calls(), old(self).calls()),
            final(self).keeps_ports(*old(self)),
            final(self).spawner_port() == old(self).spawner_port(),
            both_stop_run(
                old(self)@,
                added(final(self).calls(), old(self).calls()),
                final(self)@,
                r@,
            ),
    {
        let ghost start = self.ports@;
        let ghost pre = self@;
        let mut duo = self.duo.take().unwrap();
        duo.a_exit = None;
        duo.b_exit = None;
        let pid: u32 = self.ports.child_id(&duo.a);
        let ghost h0 = self.ports@;
        self.stopping_pid = Some(pid);
        self.ports.signal_pair(&mut duo, Signal::Interrupt);
        let ghost h1 = self.ports@;
        self.stop_sent_signals = Vec::new();
        self.stop_sent_signals.push(Signal::Interrupt);
        assert(self.stop_sent_signals@ =~= seq![Signal::Interrupt]);
        self.ports.wait_pair(&mut duo, self.config.stop_timeout());
        let ghost h2 = self.ports@;
        let ghost a = duo.a_exit;
        let ghost b = duo.b_exit;
        let ghost first = seq![PortCall::Id { who: duo.a.who(), pid }] + added(h1, h0) + added(h2, h1);
        proof {
            lemma_grown(h1, h0);
            lemma_grown(h2, h1);
            assert(h2 =~= start + first);
            assert(first.subrange(1, 3) =~= added(h1, h0));
            assert(first.subrange(3, 7) =~= added(h2, h1));
            assert(first[4] == added(h2, h1)[1]);
            assert(first[6] == added(h2, h1)[3]);
        }
        let step = if duo.a_exit.is_some() && duo.b_exit.is_some() {
            self.pair_stopped(duo)
        } else {
            self.terminate_pair(duo)
        };
        proof {
            lemma_after(start, first, h2, self.ports@);
            let all = added(self.ports@, start);
            assert(all.skip(7) =~= added(self.ports@, h2));
            assert(all.subrange(1, 3) =~= first.subrange(1, 3));
            assert(all.subrange(3, 7) =~= first.subrange(3, 7));
            assert(all[0] == first[0] && all[4] == first[4] && all[6] == first[6]);
        }
        step
    }

    pub(super) fn quit_pair(&mut self) -> (r: Step)
        requires
            old(self)@.wf(),
            old(self)@.pair is Some,
        ensures
            final(self)@.wf(),
            grown(final(self).calls(), old(self).calls()),
            final(self).keeps_ports(*old(self)),
            final(self).spawner_port() == old(self).spawner_port(),
            both_quit_run(
                old(self)@,
                added(final(self).calls(), old(self).calls()),
                final(self)@,
                r@,
            ),
    {
        let ghost start = self.ports@;
        let ghost pre = self@;
        let asked = self.stop_pair();
        let ghost mid = self.ports@;
        let ghost stopped = self@;
        let ghost first = added(mid, start);
        let ghost want = asked@;
        proof {
            lemma_grown(mid, start);
            lemma_added(mid, mid, Seq::empty());
        }
        let step = match asked {
            Step::CheckTemps => {
                let children = match &self.pending {
                    Pending::BothTemps { children } => children.clone(),
                    _ => String::new(),
                };
                let plan = self.both.take().unwrap();
                let mut msg = concat2(
                    "recording not composed: the session was shut down",
                    plan.kept().as_str(),
                );
                append_stderr(&mut msg, children.as_str());
                self.fail_pair(MachineCode::IoError, msg.as_str(), Ghost(stopped))
            },
            s => s,
        };
        proof {
            lemma_after(start, first, mid, self.ports@);
            let all = added(self.ports@, start);
            let k = first.len() as int;
            assert(all.take(k) =~= first);
            assert(all.skip(k) =~= added(self.ports@, mid));
            assert(both_stop_run(pre, all.take(k), stopped, want));
            assert(both_quit_end(stopped, want, all.skip(k), self@, step@));
        }
        step
    }

    fn pair_stopped(&mut self, duo: Duo<S::Child>) -> (r: Step)
        requires
            old(self)@.selector is None,
            old(self)@.recorder is None,
            old(self)@.pair is None,
            old(self)@.both is Some,
            old(self)@.under_way(),
        ensures
            final(self)@.wf(),
            grown(final(self).calls(), old(self).calls()),
            final(self).keeps_ports(*old(self)),
            final(self).spawner_port() == old(self).spawner_port(),
            both_stopped(
                RecView { pair: Some(duo.pair()), ..old(self)@ },
                added(final(self).calls(), old(self).calls()),
                final(self)@,
                r@,
            ),
    {
        let mut duo = duo;
        let ghost start = self.ports@;
        let ghost pair = duo.pair();
        let children = self.ports.take_both_stderr(&mut duo);
        proof {
            let (a, b) = choose|a: Seq<char>, b: Seq<char>|
                {
                    &&& self.ports@ == #[trigger] with_both_stderr(start, pair, a, b)
                    &&& children@ == joined_stderr(a, b)
                };
            let made = seq![
                PortCall::Stderr { who: pair.a, text: a },
                PortCall::Stderr { who: pair.b, text: b },
            ];
            assert(self.ports@ =~= start + made);
            lemma_added(self.ports@, start, made);
        }
        self.state = State::Stopping;
        self.pending = Pending::BothTemps { children };
        Step::CheckTemps
    }

    fn terminate_pair(&mut self, duo: Duo<S::Child>) -> (r: Step)
        requires
            old(self)@.state == State::Recording,
            old(self)@.selector is None,
            old(self)@.recorder is None,
            old(self)@.pair is None,
            old(self)@.both is Some,
            old(self)@.under_way(),
        ensures
            final(self)@.wf(),
            grown(final(self).calls(), old(self).calls()),
            final(self).keeps_ports(*old(self)),
            final(self).spawner_port() == old(self).spawner_port(),
            both_terminate_run(
                RecView { pair: Some(duo.pair()), ..old(self)@ },
                duo.a_exit,
                duo.b_exit,
                added(final(self).calls(), old(self).calls()),
                final(self)@,
                r@,
            ),
    {
        let mut duo = duo;
        let ghost start = self.ports@;
        let ghost pair = duo.pair();
        let ghost pre = RecView { pair: Some(pair), ..self@ };
        let ghost a = duo.a_exit;
        let ghost b = duo.b_exit;
        let ghost n = running(a) + running(b);
        self.ports.signal_pair(&mut duo, Signal::Terminate);
        let ghost h1 = self.ports@;
        self.stop_sent_signals = Vec::new();
        self.stop_sent_signals.push(Signal::Interrupt);
        self.stop_sent_signals.push(Signal::Terminate);
        assert(self.stop_sent_signals@ =~= seq![Signal::Interrupt, Signal::Terminate]);
        self.ports.wait_pair(&mut duo, self.config.stop_term_timeout());
        let ghost h2 = self.ports@;
        let ghost a2 = duo.a_exit;
        let ghost b2 = duo.b_exit;
        let ghost first = added(h1, start) + added(h2, h1);
        proof {
            lemma_grown(h1, start);
            lemma_grown(h2, h1);
            assert(h2 =~= start + first);
        }
        let step = if duo.a_exit.is_some() && duo.b_exit.is_some() {
            self.pair_stopped(duo)
        } else {
            self.kill_pair(duo)
        };
        proof {
            lemma_after(start, first, h2, self.ports@);
            let all = added(self.ports@, start);
            assert(all.take(n) =~= added(h1, start));
            assert(all.subrange(n, 2 * n + 2) =~= added(h2, h1));
            assert(all.skip(2 * n + 2) =~= added(self.ports@, h2));
            assert(wait_pair_run(
                all.subrange(n, 2 * n + 2),
                pair,
                a,
                b,
                pre.config.stop_term_timeout_ms,
                a2,
                b2,
            ));
        }
        step
    }

    fn kill_pair(&mut self, duo: Duo<S::Child>) -> (r: Step)
        requires
            old(self)@.state == State::Recording,
            old(self)@.selector is None,
            old(self)@.recorder is None,
            old(self)@.pair is None,
            old(self)@.both is Some,
            old(self)@.under_way(),
        ensures
            final(self)@.wf(),
            grown(final(self).calls(), old(self).calls()),
            final(self).keeps_ports(*old(self)),
            final(self).spawner_port() == old(self).spawner_port(),
            both_kill_run(
                RecView { pair: Some(duo.pair()), ..old(self)@ },
                duo.a_exit,
                duo.b_exit,
                added(final(self).calls(), old(self).calls()),
                final(self)@,
                r@,
            ),
    {
        let mut duo = duo;
        let ghost start = self.ports@;
        let ghost pair = duo.pair();
        let ghost pre = RecView { pair: Some(pair), ..self@ };
        let ghost files = self@.both->0;
        let ghost a = duo.a_exit;
        let ghost b = duo.b_exit;
        let ghost n = running(a) + running(b);
        self.ports.signal_pair(&mut duo, Signal::Kill);
        let ghost h1 = self.ports@;
        self.stop_sent_signals = Vec::new();
        self.stop_sent_signals.push(Signal::Interrupt);
        self.stop_sent_signals.push(Signal::Terminate);
        self.stop_sent_signals.push(Signal::Kill);
        assert(self.stop_sent_signals@ =~= seq![
            Signal::Interrupt,
            Signal::Terminate,
            Signal::Kill,
        ]);
        self.ports.reap_pair(&mut duo);
        let ghost h2 = self.ports@;
        let stderr = self.ports.take_both_stderr(&mut duo);
        let ghost h3 = self.ports@;
        let ghost (ta, tb) = choose|x: Seq<char>, y: Seq<char>|
            {
                &&& h3 == #[trigger] with_both_stderr(h2, pair, x, y)
                &&& stderr@ == joined_stderr(x, y)
            };
        let plan = self.both.take().unwrap();
        let mut msg = concat3(
            "stop timed out after SIGINT/SIGTERM; nuclear SIGKILL used to reap; file may be corrupt",
            concat4(" (", plan.a.as_str(), ", ", plan.b.as_str()).as_str(),
            ")",
        );
        append_stderr(&mut msg, stderr.as_str());
        proof {
            let base = "stop timed out after SIGINT/SIGTERM; nuclear SIGKILL used to reap; file may be corrupt"@;
            let both = files.a + ", "@ + files.b;
            assert(base + (" ("@ + files.a + ", "@ + files.b) + ")"@ =~= base + (" ("@ + both
                + ")"@));
            assert(msg@ == stop_timed_out(Some(both), stderr@));
        }
        self.clear_session();
        self.last_error = Some(msg.clone());
        self.tell(msg.as_str());
        proof {
            let sent = added(h1, start);
            let reaped = added(h2, h1);
            let last = added(self.ports@, h3);
            lemma_grown(h1, start);
            lemma_grown(h2, h1);
            lemma_grown(self.ports@, h3);
            let ca = PortCall::Stderr { who: pair.a, text: ta };
            let cb = PortCall::Stderr { who: pair.b, text: tb };
            let all = sent + reaped + seq![ca, cb] + last;
            assert(self.ports@ =~= start + all);
            lemma_added(self.ports@, start, all);
            let k = n + reaped.len() as int;
            assert(all.take(n) =~= sent);
            assert(all.subrange(n, k) =~= reaped);
            assert(all[k] == ca);
            assert(all[k + 1] == cb);
            assert(all.skip(k + 2) =~= last);
            assert(pre.pair->0 == pair);
            assert(reap_pair_run(all.subrange(n, k), pre.pair->0, a, b));
        }
        Step::Done(CommandResult::err(MachineCode::StopTimeout, msg.as_str()))
    }

    // -----------------------------------------------------------------------
    // Composing
    // -----------------------------------------------------------------------

    /// The recordings of two monitors that have to be looked at.
    pub fn both_temps(&self) -> (r: Option<(&str, &str)>)
        ensures
            match r {
                Some(p) => self@.both is Some && p.0@ == self@.both->0.a && p.1@
                    == self@.both->0.b,
                None => self@.both is None,
            },
    {
        match &self.both {
            Some(p) => Some((p.a.as_str(), p.b.as_str())),
            None => None,
        }
    }

    /// The files that are no longer needed, once.
    pub fn take_discarded(&mut self) -> (r: Vec<String>)
        ensures
            views(r@) == old(self)@.discard,
            final(self)@ == (RecView { discard: Seq::empty(), ..old(self)@ }),
            final(self).calls() == old(self).calls(),
            final(self).keeps_ports(*old(self)),
            final(self).spawner_port() == old(self).spawner_port(),
    {
        let mut files: Vec<String> = Vec::new();
        std::mem::swap(&mut files, &mut self.discard);
        assert(views(self.discard@) =~= Seq::<Seq<char>>::empty());
        files
    }

    /// What was found of the recordings of two monitors that have ended, the
    /// primary one first: whether each is there and not empty, or why that cannot
    /// be told. If both are, they are composed.
    pub fn provide_temps(&mut self, a: Result<bool, PortError>, b: Result<bool, PortError>) -> (r:
        Step)
        requires
            old(self)@.wf(),
            old(self)@.pending is BothTemps,
        ensures
            final(self)@.wf(),
            grown(final(self).calls(), old(self).calls()),
            final(self).keeps_ports(*old(self)),
            both_temps_run(
                old(self)@,
                answer(a),
                answer(b),
                added(final(self).calls(), old(self).calls()),
                final(self)@,
                r@,
            ),
    {
        let ghost pre = self@;
        let ghost files = pre.both->0;
        let plan = self.both.take().unwrap();
        let failed = match unusable(plan.a.as_str(), &a) {
            Some(m) => Some(m),
            None => unusable(plan.b.as_str(), &b),
        };
        match failed {
            Some(m) => {
                let children = match &self.pending {
                    Pending::BothTemps { children } => children.clone(),
                    _ => String::new(),
                };
                let mut msg = concat2(m.as_str(), plan.kept().as_str());
                append_stderr(&mut msg, children.as_str());
                self.fail_pair(MachineCode::IoError, msg.as_str(), Ghost(pre))
            },
            None => {
                self.both = Some(plan);
                assert(self@ == pre);
                self.compose()
            },
        }
    }

    fn fail_pair(&mut self, code: MachineCode, message: &str, pre: Ghost<RecView>) -> (r: Step)
        requires
            pre@.over() == old(self)@.over(),
            pre@.config == old(self)@.config,
            old(self)@.selector is None,
        ensures
            final(self)@.wf(),
            grown(final(self).calls(), old(self).calls()),
            final(self).keeps_ports(*old(self)),
            final(self).spawner_port() == old(self).spawner_port(),
            both_failed(
                pre@,
                code,
                message@,
                added(final(self).calls(), old(self).calls()),
                final(self)@,
                r@,
            ),
    {
        self.clear_session();
        self.last_error = Some(message.to_owned());
        self.tell(message);
        Step::Done(CommandResult::err(code, message))
    }

    fn compose(&mut self) -> (r: Step)
        requires
            old(self)@.wf(),
            old(self)@.pending is BothTemps,
        ensures
            final(self)@.wf(),
            grown(final(self).calls(), old(self).calls()),
            final(self).keeps_ports(*old(self)),
            compose_run(
                old(self)@,
                added(final(self).calls(), old(self).calls()),
                final(self)@,
                r@,
            ),
    {
        let ghost start = self.ports@;
        let ghost pre = self@;
        let plan = self.both.take().unwrap();
        let path = match &self.output_path {
            Some(p) => p.clone(),
            None => String::new(),
        };
        assert(path@ == pre.output_path->0);
        let argv = build_compose_argv(
            &plan.layout,
            self.audio,
            plan.a.as_str(),
            plan.b.as_str(),
            path.as_str(),
        );
        let spawned = self.ports.spawn(&argv, SpawnOpts { new_process_group: true });
        let ghost c0 = PortCall::Spawn {
            who: start.len() as int,
            argv: views(argv@),
            new_group: true,
            failed: failure(spawned),
        };
        let mut child = match spawned {
            Ok(c) => c,
            Err(e) => {
                let ghost mid = self.ports@;
                let ghost first = seq![c0];
                assert(mid =~= start + first);
                let msg = concat3(
                    "failed to spawn ffmpeg: ",
                    e.to_text().as_str(),
                    plan.kept().as_str(),
                );
                let step = self.fail_pair(MachineCode::SpawnFailed, msg.as_str(), Ghost(pre));
                proof {
                    lemma_after(start, first, mid, self.ports@);
                    assert(added(self.ports@, start).skip(1) =~= added(self.ports@, mid));
                }
                return step;
            },
        };
        let waited = self.ports.wait(&mut child);
        let ghost mid = self.ports@;
        let ghost first = seq![c0, PortCall::Wait { who: child.who(), answer: answer(waited) }];
        assert(mid =~= start + first);
        match waited {
            Ok(status) => {
                let composer = self.ports.take_stderr_tail(&mut child);
                proof {
                    let all = first.push(PortCall::Stderr { who: child.who(), text: composer@ });
                    assert(self.ports@ =~= start + all);
                    lemma_added(self.ports@, start, all);
                }
                self.both = Some(plan);
                self.pending = Pending::BothFinal { composed: status, composer };
                Step::CheckOutput
            },
            Err(e) => {
                self.ports.force_reap_recorder(&mut child);
                let ghost ended = self.ports@;
                let msg = concat3(
                    "ffmpeg wait failed: ",
                    e.to_text().as_str(),
                    plan.kept().as_str(),
                );
                let step = self.fail_pair(MachineCode::IoError, msg.as_str(), Ghost(pre));
                proof {
                    let reaped = added(ended, mid);
                    let last = added(self.ports@, ended);
                    lemma_grown(ended, mid);
                    lemma_grown(self.ports@, ended);
                    let rest = reaped + last;
                    assert(self.ports@ =~= mid + rest);
                    lemma_added(self.ports@, mid, rest);
                    let k = reaped.len() as int;
                    assert(rest.take(k) =~= reaped);
                    assert(rest.skip(k) =~= last);
                    assert(recorder_run(rest.take(k), child.who()));
                    assert(lost_composer_run(pre, child.who(), e.text(), rest, self@, step@));
                    lemma_after(start, first, mid, self.ports@);
                    assert(added(self.ports@, start).skip(2) =~= rest);
                }
                step
            },
        }
    }

    pub(super) fn finish_pair(&mut self, file_nonempty: Result<bool, PortError>) -> (r:
        CommandResult)
        requires
            old(self)@.wf(),
            old(self)@.pending is BothFinal,
        ensures
            final(self)@.wf(),
            grown(final(self).calls(), old(self).calls()),
            final(self).clock_port() == old(self).clock_port(),
            final(self).spawner_port() == old(self).spawner_port(),
            !r.ok || !old(self)@.config.copy_path ==> final(self).clipboard_port()
                == old(self).clipboard_port(),
            !old(self)@.config.notify ==> final(self).notifier_port()
                == old(self).notifier_port(),
            both_finish_run(
                old(self)@,
                answer(file_nonempty),
                added(final(self).calls(), old(self).calls()),
                final(self)@,
                r@,
            ),
    {
        let ghost pre = self@;
        let ghost files = pre.both->0;
        let plan = self.both.take().unwrap();
        let (status, stderr) = match &self.pending {
            Pending::BothFinal { composed, composer } => (*composed, composer.clone()),
            _ => (ExitStatus::Code(0), String::new()),
        };
        let path = match &self.output_path {
            Some(p) => p.clone(),
            None => String::new(),
        };
        assert(path@ == pre.output_path->0);
        self.clear_session();
        self.last_child_exit = Some(status);
        let kept = plan.kept();
        let failed = if !status.success() {
            Some(
                concat3("composing failed: ffmpeg ", status.to_text().as_str(), kept.as_str()),
            )
        } else {
            match &file_nonempty {
                Err(e) => Some(
                    concat3("cannot stat output file: ", e.to_text().as_str(), kept.as_str()),
                ),
                Ok(false) => Some(
                    concat4(
                        "composing failed: output missing or empty (",
                        path.as_str(),
                        ")",
                        kept.as_str(),
                    ),
                ),
                Ok(true) => None,
            }
        };
        if let Some(base) = failed {
            let mut msg = base;
            append_stderr(&mut msg, stderr.as_str());
            assert(compose_failure(status, answer(file_nonempty), files, path@, stderr@) == Some(
                msg@,
            ));
            self.last_error = Some(msg.clone());
            self.tell(msg.as_str());
            return CommandResult::err(MachineCode::IoError, msg.as_str());
        }
        self.last_success_path = Some(path.clone());
        self.last_error = None;
        let mut files_left: Vec<String> = Vec::new();
        files_left.push(plan.a);
        files_left.push(plan.b);
        assert(views(files_left@) =~= seq![files.a, files.b]);
        self.discard = files_left;
        self.announce(path.as_str(), status)
    }
}

fn unusable(path: &str, file: &Result<bool, PortError>) -> (r: Option<String>)
    ensures
        crate::text::opt_view(r) == temp_failure(path@, answer(*file)),
{
    match file {
        Err(e) => Some(concat2("cannot stat output file: ", e.to_text().as_str())),
        Ok(false) => Some(concat3("recording failed: output missing or empty (", path, ")")),
        Ok(true) => None,
    }
}

proof fn lemma_both_start(
    pre: RecView,
    site: SiteView,
    time: Timestamp,
    allocated: Result<BothFiles, PortError>,
    calls: Seq<PortCall>,
    post: RecView,
    out: StepView,
)
    requires
        site.failed is None,
        calls.len() >= 1,
        calls[0] == (PortCall::Now { time }),
        both_allocation(allocated, pre.config.output_dir, time, site.taken),
        both_named_run(pre, allocated, site.cwd, calls.skip(1), post, out),
    ensures
        both_start_run(pre, site, calls, post, out),
{
    assert(calls[0] matches PortCall::Now { time: t } && t == time);
    assert(exists|a: Result<BothFiles, PortError>|
        {
            &&& #[trigger] both_allocation(a, pre.config.output_dir, time, site.taken)
            &&& both_named_run(pre, a, site.cwd, calls.skip(1), post, out)
        });
}

} // verus!
