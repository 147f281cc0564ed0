use std::collections::{BTreeMap, VecDeque};
use std::ops::{Deref, DerefMut};
use std::sync::{Arc, Mutex};

use hyprcap::audio::{AudioError, AudioInventory};
use hyprcap::calendar::{civil_utc, format_timestamp};
use hyprcap::config::Config;
use hyprcap::ipc::{IpcCommand, IpcRequest, IpcResponse};
use hyprcap::output::{
    build_wf_recorder_argv, resolve_fullscreen_output, resolve_one_fps, unique_output_path,
};
use hyprcap::outputs::OutputInfo;
use hyprcap::ports::{
    ChildHandle, Clipboard, Clock, CommandSpawner, ExitStatus, Notifier, PortError, Signal,
    SpawnOpts, Timestamp,
};
use hyprcap::recorder::{OutputSite, Recorder, Step};
use hyprcap::server::{
    audio_list_response, finish_request, handle_request, status_json_from_response, ConnAction, Received, RequestRead,
    SessionState, Work,
};
use hyprcap::status::{CommandResult, MachineCode, State};

/// The files that the fake programs write.
type Files = Arc<Mutex<BTreeMap<String, Vec<u8>>>>;

#[derive(Debug, Clone)]
struct SignalEvent {
    pid: u32,
    signal: Signal,
    group: bool,
}

#[derive(Debug, Clone)]
struct SpawnRecord {
    argv: Vec<String>,
    opts: SpawnOpts,
}

#[derive(Debug, Clone)]
struct FakeChildScript {
    pid: u32,
    exit: ExitStatus,
    stdout: String,
    stderr: String,
    ignore_sigint: bool,
    ignore_sigterm: bool,
    write_bytes_on_signal: Option<Vec<u8>>,
    write_file_on_signal: Option<String>,
    wait_for_signal: bool,
    already_dead: bool,
    auto_exit_after_try_waits: Option<u32>,
    wait_fails: bool,
}

impl Default for FakeChildScript {
    fn default() -> Self {
        Self {
            pid: 1000,
            exit: ExitStatus::Code(0),
            stdout: String::new(),
            stderr: String::new(),
            ignore_sigint: false,
            ignore_sigterm: false,
            write_bytes_on_signal: Some(b"fake-video-bytes".to_vec()),
            write_file_on_signal: None,
            wait_for_signal: false,
            already_dead: false,
            auto_exit_after_try_waits: None,
            wait_fails: false,
        }
    }
}

struct FakeChild {
    script: FakeChildScript,
    alive: bool,
    saw_sigint: bool,
    saw_sigterm: bool,
    saw_kill: bool,
    log: Arc<Mutex<Vec<SignalEvent>>>,
    files: Files,
    try_wait_calls: u32,
}

impl FakeChild {
    fn maybe_write_file(&self) {
        if let (Some(p), Some(bytes)) = (
            &self.script.write_file_on_signal,
            &self.script.write_bytes_on_signal,
        ) {
            self.files.lock().unwrap().insert(p.clone(), bytes.clone());
        }
    }

    fn apply_signal(&mut self, signal: Signal, group: bool) {
        self.log.lock().unwrap().push(SignalEvent {
            pid: self.script.pid,
            signal,
            group,
        });
        match signal {
            Signal::Interrupt => {
                self.saw_sigint = true;
                self.maybe_write_file();
                if !self.script.ignore_sigint {
                    self.alive = false;
                }
            }
            Signal::Terminate => {
                self.saw_sigterm = true;
                self.maybe_write_file();
                if !self.script.ignore_sigterm {
                    self.alive = false;
                }
            }
            Signal::Kill => {
                self.saw_kill = true;
                self.alive = false;
            }
        }
    }
}

impl ChildHandle for FakeChild {
    fn id(&self) -> u32 {
        self.script.pid
    }

    fn signal(&mut self, signal: Signal) -> Result<(), PortError> {
        self.apply_signal(signal, false);
        Ok(())
    }

    fn signal_group(&mut self, signal: Signal) -> Result<(), PortError> {
        self.apply_signal(signal, true);
        Ok(())
    }

    fn try_wait(&mut self) -> Result<Option<ExitStatus>, PortError> {
        self.try_wait_calls = self.try_wait_calls.saturating_add(1);
        if self.alive {
            if let Some(n) = self.script.auto_exit_after_try_waits {
                if self.try_wait_calls > n {
                    self.alive = false;
                    return Ok(Some(self.script.exit));
                }
            }
            Ok(None)
        } else {
            Ok(Some(self.script.exit))
        }
    }

    fn wait(&mut self) -> Result<ExitStatus, PortError> {
        if self.script.wait_fails {
            return Err(PortError::Wait("simulated wait fail".into()));
        }
        self.alive = false;
        Ok(self.script.exit)
    }

    fn wait_timeout(&mut self, _timeout_ms: u64) -> Result<Option<ExitStatus>, PortError> {
        if !self.alive {
            return Ok(Some(self.script.exit));
        }
        if self.script.wait_for_signal {
            if self.saw_kill {
                self.alive = false;
                return Ok(Some(self.script.exit));
            }
            if self.saw_sigterm && !self.script.ignore_sigterm {
                self.alive = false;
                return Ok(Some(self.script.exit));
            }
            if self.saw_sigint && !self.script.ignore_sigint {
                self.alive = false;
                return Ok(Some(self.script.exit));
            }
            return Ok(None);
        }
        self.alive = false;
        Ok(Some(self.script.exit))
    }

    fn take_stdout(&mut self) -> String {
        std::mem::take(&mut self.script.stdout)
    }

    fn take_stderr_tail(&mut self) -> String {
        std::mem::take(&mut self.script.stderr)
    }
}

struct FakeSpawner {
    next_pid: u32,
    scripts: VecDeque<FakeChildScript>,
    fail_binary: Option<String>,
    /// Fail the spawn with this number, counted from zero.
    fail_spawn: Option<usize>,
    missing: Vec<String>,
    spawns: Vec<SpawnRecord>,
    signal_log: Arc<Mutex<Vec<SignalEvent>>>,
    files: Files,
    /// When spawning wf-recorder, auto-attach write path from `-f`.
    auto_write_on_signal: bool,
    /// Bytes written on signal when auto_write is on (`None` = missing file).
    auto_write_bytes: Option<Vec<u8>>,
    recorder_ignore_sigint: bool,
    recorder_ignore_sigterm: bool,
    recorder_exit: ExitStatus,
    recorder_stderr: String,
    /// What composing writes to its output.
    composed_bytes: Option<Vec<u8>>,
    composer: FakeChildScript,
}

impl FakeSpawner {
    fn new() -> Self {
        Self {
            next_pid: 2000,
            scripts: VecDeque::new(),
            fail_binary: None,
            fail_spawn: None,
            missing: Vec::new(),
            spawns: Vec::new(),
            signal_log: Arc::new(Mutex::new(Vec::new())),
            files: Arc::new(Mutex::new(BTreeMap::new())),
            auto_write_on_signal: true,
            auto_write_bytes: Some(b"fake-video-bytes".to_vec()),
            recorder_ignore_sigint: false,
            recorder_ignore_sigterm: false,
            recorder_exit: ExitStatus::Code(0),
            recorder_stderr: String::new(),
            composed_bytes: Some(b"composed".to_vec()),
            composer: FakeChildScript::default(),
        }
    }

    fn push_script(&mut self, script: FakeChildScript) {
        self.scripts.push_back(script);
    }

    fn signal_log(&self) -> Vec<SignalEvent> {
        self.signal_log.lock().unwrap().clone()
    }

    fn wf_spawns(&self) -> Vec<&SpawnRecord> {
        self.spawns
            .iter()
            .filter(|s| s.argv.first().map(|a| a == "wf-recorder").unwrap_or(false))
            .collect()
    }

    fn slurp_spawns(&self) -> usize {
        self.spawns
            .iter()
            .filter(|s| s.argv.first().map(|a| a == "slurp").unwrap_or(false))
            .count()
    }
}

impl CommandSpawner for FakeSpawner {
    type Child = FakeChild;

    fn spawn(&mut self, argv: &Vec<String>, opts: SpawnOpts) -> Result<Self::Child, PortError> {
        let bin = argv.first().cloned().unwrap_or_default();
        let number = self.spawns.len();
        self.spawns.push(SpawnRecord {
            argv: argv.to_vec(),
            opts,
        });

        if self.fail_spawn == Some(number) || self.fail_binary.as_deref() == Some(bin.as_str()) {
            return Err(PortError::Spawn(format!("simulated spawn fail for {bin}")));
        }

        let pid = self.next_pid;
        self.next_pid += 1;

        if bin == "ffmpeg" {
            if let (Some(bytes), Some(path)) = (&self.composed_bytes, argv.last()) {
                self.files.lock().unwrap().insert(path.clone(), bytes.clone());
            }
            return Ok(FakeChild {
                script: FakeChildScript { pid, ..self.composer.clone() },
                alive: true,
                saw_sigint: false,
                saw_sigterm: false,
                saw_kill: false,
                log: Arc::clone(&self.signal_log),
                files: Arc::clone(&self.files),
                try_wait_calls: 0,
            });
        }

        let mut script = self.scripts.pop_front().unwrap_or(FakeChildScript {
            exit: self.recorder_exit,
            stderr: self.recorder_stderr.clone(),
            ignore_sigint: self.recorder_ignore_sigint,
            ignore_sigterm: self.recorder_ignore_sigterm,
            write_bytes_on_signal: self.auto_write_bytes.clone(),
            wait_for_signal: bin == "wf-recorder",
            ..Default::default()
        });
        script.pid = pid;

        if bin == "wf-recorder" {
            if self.auto_write_on_signal {
                if let Some(i) = argv.iter().position(|a| a == "-f") {
                    if let Some(p) = argv.get(i + 1) {
                        script.write_file_on_signal = Some(p.clone());
                    }
                }
                script.write_bytes_on_signal = self.auto_write_bytes.clone();
            } else {
                script.write_file_on_signal = None;
                script.write_bytes_on_signal = None;
            }
            script.wait_for_signal = true;
            script.ignore_sigint = self.recorder_ignore_sigint;
            script.ignore_sigterm = self.recorder_ignore_sigterm;
            script.exit = self.recorder_exit;
            if script.stderr.is_empty() {
                script.stderr = self.recorder_stderr.clone();
            }
        }

        let alive = !script.already_dead;
        Ok(FakeChild {
            script,
            alive,
            saw_sigint: false,
            saw_sigterm: false,
            saw_kill: false,
            log: Arc::clone(&self.signal_log),
            files: Arc::clone(&self.files),
            try_wait_calls: 0,
        })
    }

    fn command_exists(&self, binary: &str) -> bool {
        !self.missing.iter().any(|m| m == binary)
    }
}

#[derive(Clone)]
struct FakeClock {
    now: Arc<Mutex<Timestamp>>,
}

impl FakeClock {
    fn at_secs(secs: u64) -> Self {
        Self {
            now: Arc::new(Mutex::new(Timestamp {
                secs: secs as i64,
                nanos: 0,
            })),
        }
    }
}

impl Clock for FakeClock {
    fn now(&self) -> Timestamp {
        *self.now.lock().unwrap()
    }
    fn sleep(&self, _millis: u64) {}
}

#[derive(Default)]
struct FakeNotifier {
    calls: Vec<(String, String)>,
    fail: bool,
}

impl Notifier for FakeNotifier {
    fn notify(&mut self, title: &str, body: &str) -> Result<(), PortError> {
        if self.fail {
            return Err(PortError::Other("notify failed".into()));
        }
        self.calls.push((title.to_string(), body.to_string()));
        Ok(())
    }
}

#[derive(Default)]
struct FakeClipboard {
    texts: Vec<String>,
    fail: bool,
}

impl Clipboard for FakeClipboard {
    fn copy_text(&mut self, text: &str) -> Result<(), PortError> {
        if self.fail {
            return Err(PortError::Other("clipboard failed".into()));
        }
        self.texts.push(text.to_string());
        Ok(())
    }
}

struct TempPaths {
    root: String,
}

impl TempPaths {
    fn new() -> Self {
        Self {
            root: "/home/test/rig".into(),
        }
    }

    fn output_dir(&self) -> String {
        format!("{}/Videos", self.root)
    }

    fn config(&self) -> Config {
        Config {
            output_dir: self.output_dir(),
            audio_default: false,
            copy_path: true,
            notify: true,
            notify_on_start_cli: true,
            stop_timeout_ms: 50,
            stop_term_timeout_ms: 50,
            // Avoid asking the compositor from unit tests.
            fullscreen_output: Some("TEST-OUT".into()),
            one_fps: None,
            ..Config::default_for_home(None)
        }
    }
}

/// Fixed clock: 2024-01-15 12:37:25 UTC (unix 1_705_322_245).
const TEST_UNIX: u64 = 1_705_322_245;

const CWD: &str = "/work";

type TestRec = Recorder<FakeSpawner, FakeClock, FakeNotifier, FakeClipboard>;

/// Hands the recorder what it asks of the file system, until it is done.
fn drive(rec: &mut TestRec, files: &Files, step: Step) -> CommandResult {
    let mut step = step;
    loop {
        step = match step {
            Step::Done(r) => {
                for p in rec.take_discarded() {
                    files.lock().unwrap().remove(&p);
                }
                return r;
            }
            Step::PrepareOutput => {
                let taken = files.lock().unwrap().keys().cloned().collect();
                rec.provide_output(&OutputSite {
                    ready: Ok(()),
                    taken,
                    cwd: CWD.into(),
                })
            }
            Step::CheckTemps => {
                let (a, b) = {
                    let (a, b) = rec.both_temps().unwrap();
                    (nonempty(files, a), nonempty(files, b))
                };
                rec.provide_temps(Ok(a), Ok(b))
            }
            Step::CheckOutput => {
                let found = nonempty(files, rec.output_path().unwrap());
                Step::Done(rec.provide_check(Ok(found)))
            }
        };
    }
}

fn nonempty(files: &Files, path: &str) -> bool {
    files.lock().unwrap().get(path).map(|b| !b.is_empty()).unwrap_or(false)
}

/// A recorder with its fake file system.
struct Rig {
    rec: TestRec,
    files: Files,
}

impl Deref for Rig {
    type Target = TestRec;
    fn deref(&self) -> &TestRec {
        &self.rec
    }
}

impl DerefMut for Rig {
    fn deref_mut(&mut self) -> &mut TestRec {
        &mut self.rec
    }
}

impl Rig {
    fn new(
        spawner: FakeSpawner,
        clock: FakeClock,
        notifier: FakeNotifier,
        clipboard: FakeClipboard,
        config: Config,
    ) -> Self {
        let files = Arc::clone(&spawner.files);
        Rig {
            rec: Recorder::new(spawner, clock, notifier, clipboard, config, CWD),
            files,
        }
    }

    fn start_region(&mut self, audio: Option<bool>, notify: bool) -> CommandResult {
        let step = self.rec.start_region(audio, notify);
        drive(&mut self.rec, &self.files, step)
    }

    fn start_fullscreen(
        &mut self,
        audio: Option<bool>,
        notify: bool,
        output: Option<&str>,
        fps: Option<u32>,
    ) -> CommandResult {
        let step = self.rec.start_fullscreen(audio, notify, output, fps, &Vec::new());
        drive(&mut self.rec, &self.files, step)
    }

    fn start_both(
        &mut self,
        audio: Option<bool>,
        notify: bool,
        outputs: &Vec<OutputInfo>,
    ) -> CommandResult {
        let step = self.rec.start_both(audio, notify, outputs);
        drive(&mut self.rec, &self.files, step)
    }

    fn stop(&mut self) -> CommandResult {
        let step = self.rec.stop();
        drive(&mut self.rec, &self.files, step)
    }

    fn toggle_region(&mut self, audio: Option<bool>, notify: bool) -> CommandResult {
        let step = self.rec.toggle_region(audio, notify);
        drive(&mut self.rec, &self.files, step)
    }

    fn poll_region_selection(&mut self) -> Option<CommandResult> {
        let step = self.rec.poll_region_selection()?;
        Some(drive(&mut self.rec, &self.files, step))
    }

    fn poll(&mut self) -> Option<CommandResult> {
        let step = self.rec.poll()?;
        Some(drive(&mut self.rec, &self.files, step))
    }

    fn set_config(&mut self, config: Config) {
        self.rec.set_config(config, CWD);
    }
}

fn make_recorder(paths: &TempPaths, spawner: FakeSpawner) -> Rig {
    let clock = FakeClock::at_secs(TEST_UNIX);
    let mut rec = Rig::new(
        spawner,
        clock,
        FakeNotifier::default(),
        FakeClipboard::default(),
        paths.config(),
    );
    // The inventory must hold the pinned output.
    rec.set_forced_output_inventory(Some(vec!["TEST-OUT".into()]));
    rec
}

fn slurp_ok(geom: &str) -> FakeChildScript {
    FakeChildScript {
        pid: 0,
        exit: ExitStatus::Code(0),
        stdout: geom.to_string(),
        wait_for_signal: false,
        write_bytes_on_signal: None,
        ..Default::default()
    }
}

fn slurp_cancel_empty() -> FakeChildScript {
    FakeChildScript {
        exit: ExitStatus::Code(0),
        stdout: String::new(),
        write_bytes_on_signal: None,
        ..Default::default()
    }
}

fn slurp_cancel_nonzero() -> FakeChildScript {
    FakeChildScript {
        exit: ExitStatus::Code(1),
        stdout: String::new(),
        write_bytes_on_signal: None,
        ..Default::default()
    }
}

/// region start, slurp returns geom → argv has -g, geom, -f; state Recording
#[test]
fn u1_region_start_argv_and_recording() {
    let paths = TempPaths::new();
    let mut spawner = FakeSpawner::new();
    spawner.push_script(slurp_ok("10,20 300x200"));
    let mut rec = make_recorder(&paths, spawner);

    let r = rec.start_region(None, true);
    assert!(r.ok, "{r:?}");
    assert_eq!(rec.state(), State::Recording);

    let wf = rec.spawner().wf_spawns();
    assert_eq!(wf.len(), 1);
    let argv = &wf[0].argv;
    assert_eq!(argv[0], "wf-recorder");
    assert!(argv.contains(&"-g".into()));
    let gpos = argv.iter().position(|a| a == "-g").unwrap();
    assert_eq!(argv[gpos + 1], "10,20 300x200");
    assert!(argv.contains(&"-f".into()));
    assert!(wf[0].opts.new_process_group);
    assert!(!argv.iter().any(|a| a == "-a"));
    let fpos = argv.iter().position(|a| a == "-f").unwrap();
    assert!(
        argv[fpos + 1].starts_with('/'),
        "output path must be absolute"
    );
}

/// slurp empty/cancel → no wf-recorder; Idle; slurp_cancel
#[test]
fn u2_slurp_empty_cancel() {
    let paths = TempPaths::new();
    let mut spawner = FakeSpawner::new();
    spawner.push_script(slurp_cancel_empty());
    let mut rec = make_recorder(&paths, spawner);

    let r = rec.start_region(None, true);
    assert!(r.ok);
    assert_eq!(r.code, MachineCode::SlurpCancel);
    assert_eq!(rec.state(), State::Idle);
    assert!(rec.spawner().wf_spawns().is_empty());
}

#[test]
fn u2_slurp_nonzero_cancel() {
    let paths = TempPaths::new();
    let mut spawner = FakeSpawner::new();
    spawner.push_script(slurp_cancel_nonzero());
    let mut rec = make_recorder(&paths, spawner);

    let r = rec.start_region(None, true);
    assert_eq!(r.code, MachineCode::SlurpCancel);
    assert_eq!(rec.state(), State::Idle);
    assert!(rec.spawner().wf_spawns().is_empty());
}

/// audio on/off → -a present/absent
#[test]
fn u3_audio_on_off() {
    let paths = TempPaths::new();

    let mut spawner = FakeSpawner::new();
    spawner.push_script(slurp_ok("0,0 1x1"));
    let mut rec = make_recorder(&paths, spawner);
    rec.start_region(Some(true), true);
    let argv = &rec.spawner().wf_spawns()[0].argv;
    assert!(argv.iter().any(|a| a == "-a"));

    let mut spawner = FakeSpawner::new();
    spawner.push_script(slurp_ok("0,0 1x1"));
    let mut rec = make_recorder(&paths, spawner);
    rec.start_region(Some(false), true);
    let argv = &rec.spawner().wf_spawns()[0].argv;
    assert!(!argv.iter().any(|a| a == "-a"));
}

/// fullscreen start → no -g; always has -o with non-empty name
#[test]
fn u4_fullscreen_no_geometry() {
    let paths = TempPaths::new();
    let spawner = FakeSpawner::new();
    let mut rec = make_recorder(&paths, spawner);

    let r = rec.start_fullscreen(None, true, None, None);
    assert!(r.ok, "{r:?}");
    assert_eq!(rec.state(), State::Recording);
    assert!(r.message.contains("TEST-OUT"), "{r:?}");
    let argv = &rec.spawner().wf_spawns()[0].argv;
    assert!(!argv.iter().any(|a| a == "-g"));
    assert!(argv.contains(&"-f".into()));
    let opos = argv.iter().position(|a| a == "-o").expect("-o required");
    assert!(!argv[opos + 1].is_empty());
    assert_eq!(argv[opos + 1], "TEST-OUT");
    assert_eq!(rec.status().capture_output.as_deref(), Some("TEST-OUT"));
    assert_eq!(rec.spawner().slurp_spawns(), 0);
}

/// double start → second busy; one child; exit 2
#[test]
fn u5_double_start_busy() {
    let paths = TempPaths::new();
    let mut spawner = FakeSpawner::new();
    spawner.push_script(slurp_ok("1,1 2x2"));
    let mut rec = make_recorder(&paths, spawner);

    assert!(rec.start_region(None, true).ok);
    let r2 = rec.start_region(None, true);
    assert!(!r2.ok);
    assert_eq!(r2.code, MachineCode::Busy);
    assert_eq!(r2.code.exit_code(), 2);
    assert_eq!(rec.spawner().wf_spawns().len(), 1);
    assert_eq!(rec.state(), State::Recording);
}

/// stop from Recording → SIGINT to process group only; Idle
#[test]
fn u6_stop_sigint_process_group() {
    let paths = TempPaths::new();
    let mut spawner = FakeSpawner::new();
    spawner.push_script(slurp_ok("1,1 2x2"));
    let mut rec = make_recorder(&paths, spawner);

    assert!(rec.start_region(None, true).ok);
    assert_eq!(rec.state(), State::Recording);

    let r = rec.stop();
    assert!(r.ok, "{r:?}");
    assert_eq!(rec.state(), State::Idle);

    let log = rec.spawner().signal_log();
    assert_eq!(log.len(), 1, "cooperative success must only send SIGINT");
    assert_eq!(log[0].signal, Signal::Interrupt);
    assert!(log[0].group, "SIGINT must target process group");
    assert!(!log.iter().any(|e| e.signal == Signal::Kill));
    assert!(!log.iter().any(|e| e.signal == Signal::Terminate));
}

/// double stop → idempotent
#[test]
fn u7_double_stop_idempotent() {
    let paths = TempPaths::new();
    let mut spawner = FakeSpawner::new();
    spawner.push_script(slurp_ok("1,1 2x2"));
    let mut rec = make_recorder(&paths, spawner);

    assert!(rec.start_region(None, true).ok);
    let r1 = rec.stop();
    assert!(r1.ok, "{r1:?}");
    let r2 = rec.stop();
    assert!(r2.ok, "{r2:?}");
    assert_eq!(rec.state(), State::Idle);
}

/// stop/toggle during SelectingRegion → slurp killed; Idle
#[test]
fn u8_stop_during_selecting_region() {
    let paths = TempPaths::new();
    let mut spawner = FakeSpawner::new();
    spawner.push_script(FakeChildScript {
        wait_for_signal: true,
        exit: ExitStatus::Code(1),
        write_bytes_on_signal: None,
        ..Default::default()
    });
    let mut rec = make_recorder(&paths, spawner);

    rec.begin_region(None, true).unwrap();
    assert_eq!(rec.state(), State::SelectingRegion);

    let r = rec.stop();
    assert!(r.ok);
    assert_eq!(r.code, MachineCode::SlurpCancel);
    assert_eq!(rec.state(), State::Idle);
    assert!(rec.spawner().wf_spawns().is_empty());

    let log = rec.spawner().signal_log();
    assert!(
        log.iter()
            .any(|e| e.signal == Signal::Terminate || e.signal == Signal::Kill),
        "slurp must be signalled: {log:?}"
    );
}

#[test]
fn u8_toggle_during_selecting_region() {
    let paths = TempPaths::new();
    let mut spawner = FakeSpawner::new();
    spawner.push_script(FakeChildScript {
        wait_for_signal: true,
        exit: ExitStatus::Code(1),
        write_bytes_on_signal: None,
        ..Default::default()
    });
    let mut rec = make_recorder(&paths, spawner);

    rec.begin_region(None, true).unwrap();
    let r = rec.toggle_region(None, true);
    assert_eq!(r.code, MachineCode::SlurpCancel);
    assert_eq!(rec.state(), State::Idle);
    assert!(rec.spawner().wf_spawns().is_empty());
    let log = rec.spawner().signal_log();
    assert!(
        log.iter()
            .any(|e| e.signal == Signal::Terminate || e.signal == Signal::Kill),
        "toggle cancel must signal slurp: {log:?}"
    );
}

/// toggle while Recording → stop, no slurp
#[test]
fn u9_toggle_while_recording_stops_no_slurp() {
    let paths = TempPaths::new();
    let mut spawner = FakeSpawner::new();
    spawner.push_script(slurp_ok("1,1 2x2"));
    let mut rec = make_recorder(&paths, spawner);

    rec.start_region(None, true);
    let slurp_before = rec.spawner().slurp_spawns();
    assert_eq!(rec.state(), State::Recording);

    let r = rec.toggle_region(None, true);
    assert!(r.ok, "{r:?}");
    assert_eq!(rec.state(), State::Idle);
    assert_eq!(rec.spawner().slurp_spawns(), slurp_before);
}

/// spawn fail → Idle + error; no success hooks
#[test]
fn u10_spawn_fail() {
    let paths = TempPaths::new();
    let mut spawner = FakeSpawner::new();
    spawner.push_script(slurp_ok("1,1 2x2"));
    spawner.fail_binary = Some("wf-recorder".into());
    let mut rec = make_recorder(&paths, spawner);

    let r = rec.start_region(None, true);
    assert!(!r.ok);
    assert_eq!(r.code, MachineCode::SpawnFailed);
    assert_eq!(rec.state(), State::Idle);
    assert!(rec.clipboard().texts.is_empty());
    assert!(rec.last_success_path().is_none());
}

/// cooperative stop, non-zero exit, file size OK → Success; hooks run
#[test]
fn u11_cooperative_stop_nonzero_exit_file_ok() {
    let paths = TempPaths::new();
    let mut spawner = FakeSpawner::new();
    spawner.push_script(slurp_ok("1,1 2x2"));
    spawner.recorder_exit = ExitStatus::Code(255);
    let mut rec = make_recorder(&paths, spawner);

    assert!(rec.start_region(None, true).ok);
    let out = rec.status().output_path.clone().unwrap();
    let r = rec.stop();
    assert!(r.ok, "{r:?}");
    assert_eq!(r.code, MachineCode::Success);
    assert!(r.message.contains("exit 255") || r.message.contains("child exit 255"));
    let success = rec.last_success_path().unwrap().to_string();
    assert_eq!(success, out);
    assert_eq!(rec.clipboard().texts, vec![success.clone()]);
    assert!(
        rec.notifier()
            .calls
            .iter()
            .any(|(_, body)| body.contains(&success)),
        "notify body must contain path"
    );
    assert_eq!(rec.last_child_exit(), Some(ExitStatus::Code(255)));
}

/// file missing after stop → Failure; no success clipboard
#[test]
fn u12_file_missing_failure() {
    let paths = TempPaths::new();
    let mut spawner = FakeSpawner::new();
    spawner.push_script(slurp_ok("1,1 2x2"));
    spawner.auto_write_on_signal = false;
    let mut rec = make_recorder(&paths, spawner);

    assert!(rec.start_region(None, true).ok);
    let r = rec.stop();
    assert!(!r.ok, "{r:?}");
    assert_eq!(rec.state(), State::Idle);
    assert!(rec.clipboard().texts.is_empty());
    assert!(rec.last_success_path().is_none());
}

/// zero-byte file after stop → Failure; no success clipboard
#[test]
fn u12_file_empty_failure() {
    let paths = TempPaths::new();
    let mut spawner = FakeSpawner::new();
    spawner.push_script(slurp_ok("1,1 2x2"));
    spawner.auto_write_on_signal = true;
    spawner.auto_write_bytes = Some(Vec::new()); // zero-byte
    let mut rec = make_recorder(&paths, spawner);

    assert!(rec.start_region(None, true).ok);
    let r = rec.stop();
    assert!(!r.ok, "{r:?}");
    assert!(r.message.contains("empty") || r.message.contains("missing"));
    assert!(rec.clipboard().texts.is_empty());
    assert!(rec.last_success_path().is_none());
}

/// stop timeout → ordered INT→TERM→KILL; Failure; can start again
#[test]
fn u13_stop_timeout_escalation() {
    let paths = TempPaths::new();
    let mut spawner = FakeSpawner::new();
    spawner.push_script(slurp_ok("1,1 2x2"));
    spawner.recorder_ignore_sigint = true;
    spawner.recorder_ignore_sigterm = true;
    let mut rec = make_recorder(&paths, spawner);

    assert!(rec.start_region(None, true).ok);
    let r = rec.stop();
    assert!(!r.ok);
    assert_eq!(r.code, MachineCode::StopTimeout);
    assert!(r.message.contains("nuclear SIGKILL"));
    assert_eq!(rec.state(), State::Idle);

    let log = rec.spawner().signal_log();
    let signals: Vec<_> = log.iter().map(|e| e.signal).collect();
    assert_eq!(
        signals,
        vec![Signal::Interrupt, Signal::Terminate, Signal::Kill]
    );
    assert!(log.iter().all(|e| e.group));

    rec.spawner_mut().push_script(slurp_ok("3,3 4x4"));
    rec.spawner_mut().recorder_ignore_sigint = false;
    rec.spawner_mut().recorder_ignore_sigterm = false;
    let r2 = rec.start_region(None, true);
    assert!(r2.ok, "{r2:?}");
    assert_eq!(rec.state(), State::Recording);
}

/// Cooperative success after SIGINT ignored + SIGTERM reaps with file OK.
#[test]
fn term_cooperative_success_after_sigint_ignored() {
    let paths = TempPaths::new();
    let mut spawner = FakeSpawner::new();
    spawner.push_script(slurp_ok("1,1 2x2"));
    spawner.recorder_ignore_sigint = true;
    spawner.recorder_ignore_sigterm = false;
    let mut rec = make_recorder(&paths, spawner);

    assert!(rec.start_region(None, true).ok);
    let r = rec.stop();
    assert!(r.ok, "{r:?}");
    assert_eq!(r.code, MachineCode::Success);
    let signals: Vec<_> = rec
        .spawner()
        .signal_log()
        .iter()
        .map(|e| e.signal)
        .collect();
    assert_eq!(signals, vec![Signal::Interrupt, Signal::Terminate]);
    assert!(!signals.contains(&Signal::Kill));
    assert!(rec.last_success_path().is_some());
}

/// path collision same second → unique filename
#[test]
fn u14_path_collision_unique_filename() {
    let paths = TempPaths::new();
    let clock = FakeClock::at_secs(TEST_UNIX);
    let stamp = format_timestamp(clock.now()).unwrap();
    let dir = paths.output_dir();
    let taken = vec![
        format!("{dir}/rec-{stamp}.mp4"),
        format!("{dir}/rec-{stamp}-1.mp4"),
    ];

    let path = unique_output_path(&dir, clock.now(), &taken).unwrap();
    assert_eq!(path, format!("{dir}/rec-{stamp}-2.mp4"));
}

/// notify/wl-copy fail → SuccessWithWarnings
#[test]
fn u15_notify_clipboard_fail_warnings() {
    let paths = TempPaths::new();
    let mut spawner = FakeSpawner::new();
    spawner.push_script(slurp_ok("1,1 2x2"));
    let clock = FakeClock::at_secs(TEST_UNIX);
    let mut rec = Rig::new(
        spawner,
        clock,
        FakeNotifier {
            fail: true,
            ..Default::default()
        },
        FakeClipboard {
            fail: true,
            ..Default::default()
        },
        paths.config(),
    );

    assert!(rec.start_region(None, true).ok);
    let r = rec.stop();
    assert!(r.ok, "{r:?}");
    assert!(r.is_success_with_warnings());
    assert!(r.warnings.iter().any(|w| w.contains("clipboard")));
    assert!(r.warnings.iter().any(|w| w.contains("notify")));
    assert!(rec.last_success_path().is_some());
}

/// missing hard dep → clear error; exit semantics
#[test]
fn u16_missing_hard_dep_slurp() {
    let paths = TempPaths::new();
    let mut spawner = FakeSpawner::new();
    spawner.missing.push("slurp".into());
    let mut rec = make_recorder(&paths, spawner);

    let r = rec.start_region(None, true);
    assert!(!r.ok);
    assert_eq!(r.code, MachineCode::DepMissing);
    assert_eq!(r.code.exit_code(), 4);
    assert!(r.message.contains("slurp"));
    assert_eq!(rec.state(), State::Idle);
}

#[test]
fn u16_missing_hard_dep_wf_recorder_fullscreen() {
    let paths = TempPaths::new();
    let mut spawner = FakeSpawner::new();
    spawner.missing.push("wf-recorder".into());
    let mut rec = make_recorder(&paths, spawner);

    let r = rec.start_fullscreen(None, true, None, None);
    assert!(!r.ok);
    assert_eq!(r.code, MachineCode::DepMissing);
    assert_eq!(r.code.exit_code(), 4);
    assert!(r.message.contains("wf-recorder"));
}

#[test]
fn u16_missing_hard_dep_wf_recorder_region() {
    let paths = TempPaths::new();
    let mut spawner = FakeSpawner::new();
    spawner.missing.push("wf-recorder".into());
    let mut rec = make_recorder(&paths, spawner);

    let r = rec.start_region(None, true);
    assert!(!r.ok);
    assert_eq!(r.code, MachineCode::DepMissing);
    assert_eq!(r.code.exit_code(), 4);
    assert!(r.message.contains("wf-recorder"));
    assert_eq!(rec.spawner().slurp_spawns(), 0);
    assert_eq!(rec.state(), State::Idle);
}

/// config defaults + overrides applied to paths/audio + stop hooks
#[test]
fn u17_config_defaults_and_overrides() {
    let paths = TempPaths::new();
    let mut cfg = paths.config();
    assert!(!cfg.audio_default);
    assert_eq!(cfg.stop_timeout_ms, 50);

    cfg.audio_default = true;
    cfg.output_dir = format!("{}/CustomClips", paths.root);
    cfg.copy_path = false;
    cfg.notify = false;
    cfg.notify_on_start_cli = false;

    let mut spawner = FakeSpawner::new();
    spawner.push_script(slurp_ok("1,1 2x2"));
    let clock = FakeClock::at_secs(TEST_UNIX);
    let mut rec = Rig::new(
        spawner,
        clock,
        FakeNotifier::default(),
        FakeClipboard::default(),
        cfg,
    );

    let r = rec.start_region(None, true);
    assert!(r.ok, "{r:?}");
    // notify=false → no start notify even if notify_start true
    assert!(rec.notifier().calls.is_empty());
    let argv = &rec.spawner().wf_spawns()[0].argv;
    assert!(argv.iter().any(|a| a == "-a"));
    let fpos = argv.iter().position(|a| a == "-f").unwrap();
    assert!(argv[fpos + 1].contains("CustomClips"));
    assert!(argv[fpos + 1].starts_with('/'));

    let r = rec.stop();
    assert!(r.ok, "{r:?}");
    assert!(
        rec.clipboard().texts.is_empty(),
        "copy_path=false must not clipboard"
    );
    // notify=false: only possible calls would be start (none) or stop success (none)
    assert!(
        rec.notifier().calls.is_empty(),
        "notify=false must not notify on success"
    );

    let home = "/home/tester";
    let d = Config::with_home(home, None);
    assert_eq!(d.output_dir, "/home/tester/Videos");
    assert!(!d.audio_default);
    assert!(d.copy_path);
    assert!(d.notify);
    assert!(d.notify_on_start_cli);
    assert_eq!(d.stop_timeout_ms, 5000);
    assert_eq!(d.stop_term_timeout_ms, 2000);

    let parsed = Config::parse_toml(
        "audio_default = true\noutput_dir = \"/tmp/out\"\n",
        Config::with_home(home, None),
        CWD,
    )
    .unwrap();
    assert!(parsed.audio_default);
    assert_eq!(parsed.output_dir, "/tmp/out");
    assert_eq!(parsed.stop_timeout_ms, 5000);
}

#[test]
fn notify_start_false_suppresses_start_toast() {
    let paths = TempPaths::new();
    let spawner = FakeSpawner::new();
    let mut rec = make_recorder(&paths, spawner);
    rec.start_fullscreen(None, false, None, None);
    assert!(!rec
        .notifier()
        .calls
        .iter()
        .any(|(_, b)| b.contains("Recording started")));
}

#[test]
fn poll_region_selection_with_ready_slurp() {
    let paths = TempPaths::new();
    let mut spawner = FakeSpawner::new();
    spawner.push_script(FakeChildScript {
        exit: ExitStatus::Code(0),
        stdout: "5,5 10x10".into(),
        already_dead: true,
        wait_for_signal: false,
        write_bytes_on_signal: None,
        ..Default::default()
    });
    let mut rec = make_recorder(&paths, spawner);
    rec.begin_region(None, true).unwrap();
    assert_eq!(rec.state(), State::SelectingRegion);
    let r = rec.poll_region_selection().expect("slurp ready");
    assert!(r.ok, "{r:?}");
    assert_eq!(rec.state(), State::Recording);
}

#[test]
fn poll_unexpected_recorder_death_fails() {
    let paths = TempPaths::new();
    let mut spawner = FakeSpawner::new();
    // Survive spawn settle (one try_wait), then die on the next poll — no file.
    spawner.auto_write_on_signal = false;
    spawner.push_script(FakeChildScript {
        already_dead: false,
        wait_for_signal: true,
        exit: ExitStatus::Code(1),
        write_bytes_on_signal: None,
        auto_exit_after_try_waits: Some(1),
        stderr: "encoder exploded".into(),
        ..Default::default()
    });
    let mut rec = make_recorder(&paths, spawner);
    let r = rec.start_fullscreen(None, true, None, None);
    assert!(r.ok, "{r:?}");
    assert_eq!(rec.state(), State::Recording);
    let r = rec.poll().expect("dead child");
    assert!(!r.ok, "{r:?}");
    assert!(
        r.message.contains("missing or empty")
            || r.message.contains("unexpected")
            || r.message.contains("encoder"),
        "{r:?}"
    );
    assert_eq!(rec.state(), State::Idle);
    assert!(rec.clipboard().texts.is_empty());
}

#[test]
fn stopping_pid_visible_in_status() {
    // Soft check: while Recording, pid is Some.
    let paths = TempPaths::new();
    let mut spawner = FakeSpawner::new();
    spawner.push_script(slurp_ok("1,1 2x2"));
    let mut rec = make_recorder(&paths, spawner);
    rec.start_region(None, true);
    assert!(rec.status().pid.is_some());
    rec.stop();
    assert!(rec.status().pid.is_none());
}

#[test]
fn build_argv_helpers() {
    let p = "/tmp/rec.mp4";
    let a = build_wf_recorder_argv(Some("0,0 10x10"), true, p, Some("HDMI-A-1"), None);
    assert_eq!(
        a,
        vec!["wf-recorder", "-g", "0,0 10x10", "-a", "-f", "/tmp/rec.mp4"]
    );
    let b = build_wf_recorder_argv(None, false, p, None, None);
    assert_eq!(b, vec!["wf-recorder", "-f", "/tmp/rec.mp4"]);
    let c = build_wf_recorder_argv(None, true, p, Some("DP-1"), None);
    assert_eq!(
        c,
        vec!["wf-recorder", "-o", "DP-1", "-a", "-f", "/tmp/rec.mp4"]
    );
    // Fullscreen with FPS: `-o NAME -r N [-a] -f path` (no `-g`).
    let d = build_wf_recorder_argv(None, true, p, Some("HDMI-A-1"), Some(144));
    assert_eq!(
        d,
        vec![
            "wf-recorder",
            "-o",
            "HDMI-A-1",
            "-r",
            "144",
            "-a",
            "-f",
            "/tmp/rec.mp4"
        ]
    );
    // Auto FPS: omit `-r`.
    let e = build_wf_recorder_argv(None, false, p, Some("eDP-1"), None);
    assert_eq!(e, vec!["wf-recorder", "-o", "eDP-1", "-f", "/tmp/rec.mp4"]);
    // Region ignores fps even if Some (no `-g`+`-r`).
    let f = build_wf_recorder_argv(Some("0,0 10x10"), false, p, None, Some(60));
    assert_eq!(
        f,
        vec!["wf-recorder", "-g", "0,0 10x10", "-f", "/tmp/rec.mp4"]
    );
    assert!(!f.iter().any(|a| a == "-r"));
    // Zero FPS never emits `-r`.
    let g = build_wf_recorder_argv(None, false, p, Some("eDP-1"), Some(0));
    assert!(!g.iter().any(|a| a == "-r"), "argv={g:?}");
}

#[test]
fn fullscreen_respects_config_output_override() {
    let paths = TempPaths::new();
    let spawner = FakeSpawner::new();
    let mut rec = make_recorder(&paths, spawner);
    rec.set_forced_output_inventory(Some(vec!["OTHER-OUT".into(), "TEST-OUT".into()]));
    let mut cfg = rec.config().clone();
    cfg.fullscreen_output = Some("OTHER-OUT".into());
    rec.set_config(cfg);
    assert!(rec.start_fullscreen(None, false, None, None).ok);
    let argv = rec.spawner().wf_spawns()[0].argv.clone();
    assert!(
        argv.windows(2).any(|w| w[0] == "-o" && w[1] == "OTHER-OUT"),
        "argv={argv:?}"
    );
    let _ = rec.stop();
}

#[test]
fn fullscreen_cli_override_beats_config() {
    let paths = TempPaths::new();
    let spawner = FakeSpawner::new();
    let mut rec = make_recorder(&paths, spawner);
    rec.set_forced_output_inventory(Some(vec!["DP-1".into(), "HDMI-A-1".into()]));
    let mut cfg = rec.config().clone();
    cfg.fullscreen_output = Some("DP-1".into());
    rec.set_config(cfg);
    assert!(rec.start_fullscreen(None, false, Some("HDMI-A-1"), None).ok);
    let argv = &rec.spawner().wf_spawns()[0].argv;
    assert!(
        argv.windows(2).any(|w| w[0] == "-o" && w[1] == "HDMI-A-1"),
        "argv={argv:?}"
    );
}

#[test]
fn fullscreen_multi_head_without_pin_fails_no_spawn() {
    let paths = TempPaths::new();
    let spawner = FakeSpawner::new();
    let mut rec = make_recorder(&paths, spawner);
    rec.set_forced_output_inventory(Some(vec!["DP-1".into(), "HDMI-A-1".into()]));
    let mut cfg = rec.config().clone();
    cfg.fullscreen_output = None;
    rec.set_config(cfg);
    let r = rec.start_fullscreen(None, false, None, None);
    assert!(!r.ok, "{r:?}");
    assert_eq!(r.code, MachineCode::Invalid);
    assert!(
        r.message.contains("DP-1") && r.message.contains("HDMI-A-1"),
        "{r:?}"
    );
    assert!(rec.spawner().wf_spawns().is_empty());
}

#[test]
fn fullscreen_empty_inventory_fails_no_spawn() {
    let paths = TempPaths::new();
    let spawner = FakeSpawner::new();
    let mut rec = make_recorder(&paths, spawner);
    rec.set_forced_output_inventory(Some(vec![]));
    let mut cfg = rec.config().clone();
    cfg.fullscreen_output = None;
    rec.set_config(cfg);
    let r = rec.start_fullscreen(None, false, None, None);
    assert!(!r.ok, "{r:?}");
    assert_eq!(r.code, MachineCode::Invalid);
    assert!(rec.spawner().wf_spawns().is_empty());
}

#[test]
fn fullscreen_invalid_name_fails_lists_known() {
    let paths = TempPaths::new();
    let spawner = FakeSpawner::new();
    let mut rec = make_recorder(&paths, spawner);
    rec.set_forced_output_inventory(Some(vec!["DP-1".into()]));
    let r = rec.start_fullscreen(None, false, Some("NOPE"), None);
    assert!(!r.ok, "{r:?}");
    assert_eq!(r.code, MachineCode::Invalid);
    assert!(r.message.contains("DP-1"), "{r:?}");
    assert!(rec.spawner().wf_spawns().is_empty());
}

#[test]
fn fullscreen_single_head_no_pin_ok() {
    let paths = TempPaths::new();
    let spawner = FakeSpawner::new();
    let mut rec = make_recorder(&paths, spawner);
    rec.set_forced_output_inventory(Some(vec!["eDP-1".into()]));
    let mut cfg = rec.config().clone();
    cfg.fullscreen_output = None;
    rec.set_config(cfg);
    let r = rec.start_fullscreen(None, true, None, None);
    assert!(r.ok, "{r:?}");
    assert!(r.message.contains("eDP-1"), "{r:?}");
    assert!(
        rec.notifier().calls.iter().any(|t| t.1.contains("eDP-1")),
        "notify should mention output: {:?}",
        rec.notifier().calls
    );
    let argv = &rec.spawner().wf_spawns()[0].argv;
    assert!(
        argv.windows(2).any(|w| w[0] == "-o" && w[1] == "eDP-1"),
        "argv={argv:?}"
    );
}

#[test]
fn resolve_fullscreen_output_chain() {
    let inv = vec!["A".into(), "B".into()];
    assert_eq!(
        resolve_fullscreen_output(Some("B"), Some("A"), &inv).unwrap(),
        "B"
    );
    assert_eq!(
        resolve_fullscreen_output(None, Some("A"), &inv).unwrap(),
        "A"
    );
    // Multi-head without pin/CLI → Err listing known names.
    let multi_err = resolve_fullscreen_output(None, None, &inv).unwrap_err();
    assert!(
        multi_err.contains("A") && multi_err.contains("B"),
        "{multi_err}"
    );
    assert_eq!(
        resolve_fullscreen_output(None, None, &vec!["Solo".into()]).unwrap(),
        "Solo"
    );
    assert!(resolve_fullscreen_output(None, None, &vec![]).is_err());
    // Explicit name not in inventory → Err (no silent fallback).
    let unknown = resolve_fullscreen_output(Some("Z"), None, &inv).unwrap_err();
    assert!(unknown.contains("Z") && unknown.contains("A"), "{unknown}");
    // Config pin not in inventory → Err.
    assert!(resolve_fullscreen_output(None, Some("Z"), &inv).is_err());
}

#[test]
fn resolve_one_fps_priority() {
    assert_eq!(resolve_one_fps(Some(30), Some(144)), Some(30));
    assert_eq!(resolve_one_fps(None, Some(144)), Some(144));
    assert_eq!(resolve_one_fps(None, None), None);
    assert_eq!(resolve_one_fps(Some(60), None), Some(60));
    // 0 is Auto (never -r 0).
    assert_eq!(resolve_one_fps(Some(0), Some(144)), None);
    assert_eq!(resolve_one_fps(None, Some(0)), None);
}

#[test]
fn region_spawn_ignores_config_one_fps() {
    let paths = TempPaths::new();
    let mut spawner = FakeSpawner::new();
    spawner.push_script(slurp_ok("10,20 300x200"));
    let mut rec = make_recorder(&paths, spawner);
    let mut cfg = rec.config().clone();
    cfg.one_fps = Some(144);
    rec.set_config(cfg);
    let r = rec.start_region(None, false);
    assert!(r.ok, "{r:?}");
    assert_eq!(rec.state(), State::Recording);
    let argv = &rec.spawner().wf_spawns()[0].argv;
    assert!(argv.contains(&"-g".into()), "argv={argv:?}");
    assert!(
        !argv.iter().any(|a| a == "-r"),
        "region must not inherit one_fps: argv={argv:?}"
    );
    let _ = rec.stop();
}

#[test]
fn fullscreen_argv_uses_config_one_fps() {
    let paths = TempPaths::new();
    let spawner = FakeSpawner::new();
    let mut rec = make_recorder(&paths, spawner);
    rec.set_forced_output_inventory(Some(vec!["eDP-1".into()]));
    let mut cfg = rec.config().clone();
    cfg.fullscreen_output = None;
    cfg.one_fps = Some(144);
    rec.set_config(cfg);
    assert!(rec.start_fullscreen(None, false, None, None).ok);
    let argv = &rec.spawner().wf_spawns()[0].argv;
    assert!(
        argv.windows(2).any(|w| w[0] == "-o" && w[1] == "eDP-1"),
        "argv={argv:?}"
    );
    assert!(
        argv.windows(2).any(|w| w[0] == "-r" && w[1] == "144"),
        "argv={argv:?}"
    );
    let _ = rec.stop();
}

#[test]
fn fullscreen_cli_fps_beats_config_one_fps() {
    let paths = TempPaths::new();
    let spawner = FakeSpawner::new();
    let mut rec = make_recorder(&paths, spawner);
    rec.set_forced_output_inventory(Some(vec!["eDP-1".into()]));
    let mut cfg = rec.config().clone();
    cfg.fullscreen_output = None;
    cfg.one_fps = Some(144);
    rec.set_config(cfg);
    assert!(rec.start_fullscreen(None, false, None, Some(60)).ok);
    let argv = &rec.spawner().wf_spawns()[0].argv;
    assert!(
        argv.windows(2).any(|w| w[0] == "-r" && w[1] == "60"),
        "argv={argv:?}"
    );
    assert!(
        !argv.windows(2).any(|w| w[0] == "-r" && w[1] == "144"),
        "argv={argv:?}"
    );
    let _ = rec.stop();
}

#[test]
fn fullscreen_auto_fps_omits_r() {
    let paths = TempPaths::new();
    let spawner = FakeSpawner::new();
    let mut rec = make_recorder(&paths, spawner);
    rec.set_forced_output_inventory(Some(vec!["eDP-1".into()]));
    let mut cfg = rec.config().clone();
    cfg.fullscreen_output = None;
    cfg.one_fps = None;
    rec.set_config(cfg);
    assert!(rec.start_fullscreen(None, false, None, None).ok);
    let argv = &rec.spawner().wf_spawns()[0].argv;
    assert!(!argv.iter().any(|a| a == "-r"), "argv={argv:?}");
    let _ = rec.stop();
}

#[test]
fn spawn_early_exit_returns_start_failure() {
    let paths = TempPaths::new();
    let mut spawner = FakeSpawner::new();
    spawner.push_script(FakeChildScript {
        already_dead: true,
        wait_for_signal: false,
        exit: ExitStatus::Code(1),
        stderr: "Failed to select output, exiting".into(),
        write_bytes_on_signal: None,
        ..Default::default()
    });
    // Do not auto-override already_dead for wf-recorder — keep script as-is.
    spawner.auto_write_on_signal = false;
    let mut rec = make_recorder(&paths, spawner);
    let r = rec.start_fullscreen(None, false, None, None);
    assert!(!r.ok, "{r:?}");
    assert!(
        r.message.contains("Failed to select output") || r.message.contains("missing or empty"),
        "{r:?}"
    );
    assert_eq!(rec.state(), State::Idle);
}

#[test]
fn civil_utc_matches_test_constant() {
    let (y, m, d, hh, mm, ss) = civil_utc(TEST_UNIX);
    assert_eq!((y, m, d, hh, mm, ss), (2024, 1, 15, 12, 37, 25));
}

// ----- Failures and edges -----

#[test]
fn stop_at_rest_changes_nothing() {
    let paths = TempPaths::new();
    let mut rec = make_recorder(&paths, FakeSpawner::new());
    let r = rec.stop();
    assert_eq!(r.message, "already idle");
    assert_eq!(r.code, MachineCode::Success);
    assert!(rec.spawner().spawns.is_empty());
}

#[test]
fn stop_before_a_place_is_found_aborts_the_start() {
    let paths = TempPaths::new();
    let mut rec = make_recorder(&paths, FakeSpawner::new());
    let step = rec.rec.start_fullscreen(None, true, None, None, &Vec::new());
    assert!(matches!(step, Step::PrepareOutput));
    assert_eq!(rec.state(), State::Starting);
    let r = rec.stop();
    assert_eq!(r.message, "aborted start (no child)");
    assert_eq!(rec.state(), State::Idle);
    assert!(rec.spawner().wf_spawns().is_empty());
}

#[test]
fn start_without_output_dir_fails() {
    let paths = TempPaths::new();
    let mut rec = make_recorder(&paths, FakeSpawner::new());
    let _ = rec.rec.start_fullscreen(None, true, None, None, &Vec::new());
    let step = rec.rec.provide_output(&OutputSite {
        ready: Err(PortError::Io("read-only".into())),
        taken: Vec::new(),
        cwd: CWD.into(),
    });
    match step {
        Step::Done(r) => {
            assert_eq!(r.code, MachineCode::IoError);
            assert!(r.message.starts_with("cannot create output_dir: "), "{r:?}");
        }
        other => panic!("{other:?}"),
    }
    assert_eq!(rec.state(), State::Idle);
}

#[test]
fn file_that_cannot_be_looked_at_is_no_success() {
    let paths = TempPaths::new();
    let mut rec = make_recorder(&paths, FakeSpawner::new());
    assert!(rec.start_fullscreen(None, false, None, None).ok);
    let step = rec.rec.stop();
    assert!(matches!(step, Step::CheckOutput));
    assert_eq!(rec.state(), State::Stopping);
    let r = rec.rec.provide_check(Err(PortError::Io("gone".into())));
    assert!(!r.ok);
    assert!(r.message.starts_with("cannot stat output file: "), "{r:?}");
    assert!(rec.clipboard().texts.is_empty());
    assert_eq!(rec.status().last_error.as_deref(), Some(r.message.as_str()));
}

#[test]
fn unexpected_exit_with_a_file_is_no_success() {
    let paths = TempPaths::new();
    let mut spawner = FakeSpawner::new();
    spawner.push_script(FakeChildScript {
        auto_exit_after_try_waits: Some(1),
        ..Default::default()
    });
    spawner.recorder_exit = ExitStatus::Signal(11);
    let mut rec = make_recorder(&paths, spawner);
    assert!(rec.start_fullscreen(None, false, None, None).ok);
    let path = rec.output_path().unwrap().to_string();
    rec.files.lock().unwrap().insert(path.clone(), b"part".to_vec());
    let r = rec.poll().unwrap();
    assert_eq!(r.code, MachineCode::IoError);
    assert!(
        r.message.starts_with("recording failed: unexpected child exit ("),
        "{r:?}"
    );
    assert!(r.message.contains(&path));
    assert!(rec.last_success_path().is_none());
    assert_eq!(rec.last_child_exit(), Some(ExitStatus::Signal(11)));
}

#[test]
fn saved_file_is_named_by_the_clock() {
    let paths = TempPaths::new();
    let mut rec = make_recorder(&paths, FakeSpawner::new());
    assert!(rec.start_fullscreen(None, false, None, None).ok);
    let r = rec.stop();
    assert_eq!(
        r.message,
        "saved /home/test/rig/Videos/rec-20240115-123725.mp4"
    );
    assert_eq!(
        rec.notifier().calls.last().unwrap().1,
        "Saved /home/test/rig/Videos/rec-20240115-123725.mp4\nPath copied to clipboard"
    );
}

#[test]
fn status_tells_mode_and_time() {
    let paths = TempPaths::new();
    let mut spawner = FakeSpawner::new();
    spawner.push_script(slurp_ok("1,1 2x2"));
    let mut rec = make_recorder(&paths, spawner);
    assert!(rec.start_region(Some(true), false).ok);
    let now = Timestamp {
        secs: TEST_UNIX as i64 + 2,
        nanos: 500_000_000,
    };
    let st = rec.status_at(now, Some(7));
    assert_eq!(st.capture_mode.as_deref(), Some("region"));
    assert_eq!(st.capture_output, None);
    assert_eq!(st.elapsed_ms, Some(2500));
    assert_eq!(st.started_at_unix, Some(TEST_UNIX));
    assert_eq!(st.pid, Some(7));
    assert!(st.audio);
    rec.stop();
    let st = rec.status_at(now, None);
    assert_eq!(st.capture_mode, None);
    assert_eq!(st.elapsed_ms, None);
}

#[test]
fn status_names_a_recording_only_while_there_is_one() {
    let paths = TempPaths::new();
    let mut spawner = FakeSpawner::new();
    spawner.push_script(slurp_ok("1,1 2x2"));
    let mut rec = make_recorder(&paths, spawner);
    let fresh = rec.status();
    assert_eq!(fresh.state, State::Idle);
    assert_eq!(
        (fresh.pid, fresh.output_path, fresh.started_at_unix, fresh.elapsed_ms),
        (None, None, None, None)
    );
    assert!(rec.begin_region(None, false).is_ok());
    let selecting = rec.status();
    assert_eq!(selecting.state, State::SelectingRegion);
    assert_eq!(
        (selecting.pid, selecting.output_path, selecting.capture_mode),
        (None, None, None)
    );
    assert_eq!(rec.stop().code, MachineCode::SlurpCancel);
    assert!(rec.start_fullscreen(None, false, None, None).ok);
    let recording = rec.status();
    assert_eq!(recording.state, State::Recording);
    assert_eq!(recording.pid, Some(2001));
    assert!(recording.output_path.is_some());
    assert_eq!(recording.started_at_unix, Some(TEST_UNIX));
    assert_eq!(recording.elapsed_ms, Some(0));
    assert_eq!(recording.capture_output.as_deref(), Some("TEST-OUT"));
    assert!(rec.stop().ok);
    let done = rec.status();
    assert_eq!(
        (done.pid, done.output_path, done.started_at_unix, done.capture_output),
        (None, None, None, None)
    );
}

#[test]
fn audio_list_carries_the_recorders_status() {
    let paths = TempPaths::new();
    let mut rec = make_recorder(&paths, FakeSpawner::new());
    assert!(rec.start_fullscreen(None, false, None, None).ok);
    let missing = audio_list_response(&rec.rec, Err(AudioError::PactlMissing));
    assert_eq!(missing.code, MachineCode::DepMissing.as_str());
    assert_eq!(missing.status.state, State::Recording.as_str());
    assert_eq!(missing.status.pid, Some(2000));
    let found = audio_list_response(&rec.rec, Ok(AudioInventory::default()));
    assert!(found.ok);
    assert!(found.audio_list.is_some());
    assert_eq!(found.status.elapsed_ms, Some(0));
}

#[test]
fn release_ends_the_children() {
    let paths = TempPaths::new();
    let mut rec = make_recorder(&paths, FakeSpawner::new());
    assert!(rec.start_fullscreen(None, false, None, None).ok);
    rec.release();
    assert_eq!(rec.state(), State::Idle);
    let log = rec.spawner().signal_log();
    assert_eq!(log.len(), 1);
    assert_eq!(log[0].signal, Signal::Interrupt);
}

// ----- Two monitors -----

fn monitor(name: &str, x: i32, y: i32, w: i32, h: i32) -> OutputInfo {
    OutputInfo {
        name: name.into(),
        x: Some(x),
        y: Some(y),
        width: Some(w),
        height: Some(h),
        refresh: None,
    }
}

fn two_monitors() -> Vec<OutputInfo> {
    vec![
        monitor("DP-1", 2560, 180, 1920, 1080),
        monitor("HDMI-A-1", 0, 0, 2560, 1440),
    ]
}

#[test]
fn both_records_two_heads_and_composes_one_file() {
    let paths = TempPaths::new();
    let mut rec = make_recorder(&paths, FakeSpawner::new());
    let r = rec.start_both(Some(true), true, &two_monitors());
    assert!(r.ok, "{r:?}");
    assert_eq!(r.message, "Recording HDMI-A-1+DP-1");
    assert_eq!(rec.state(), State::Recording);
    let st = rec.status();
    assert_eq!(st.capture_mode.as_deref(), Some("both"));
    assert_eq!(st.capture_output.as_deref(), Some("HDMI-A-1+DP-1"));
    assert_eq!(st.pid, Some(2000));

    let dir = paths.output_dir();
    let a = format!("{dir}/.record-ui-both-20240115-123725-A.mkv");
    let b = format!("{dir}/.record-ui-both-20240115-123725-B.mkv");
    let video = format!("{dir}/rec-20240115-123725.mp4");
    {
        let wf = rec.spawner().wf_spawns();
        assert_eq!(wf.len(), 2);
        assert!(wf.iter().all(|s| s.opts.new_process_group));
        assert_eq!(
            wf[0].argv,
            vec!["wf-recorder", "-o", "HDMI-A-1", "-r", "60", "-D", "-a", "-f", a.as_str()]
        );
        assert_eq!(
            wf[1].argv,
            vec!["wf-recorder", "-o", "DP-1", "-r", "60", "-D", "-f", b.as_str()]
        );
    }

    let r = rec.stop();
    assert!(r.ok, "{r:?}");
    assert_eq!(r.message, format!("saved {video}"));
    assert_eq!(rec.state(), State::Idle);
    assert_eq!(rec.last_success_path(), Some(video.as_str()));
    assert_eq!(rec.clipboard().texts, vec![video.clone()]);
    let compose = rec.spawner().spawns.last().unwrap().argv.clone();
    assert_eq!(compose[0], "ffmpeg");
    assert!(compose.contains(
        &"[0:v]scale=2560:1440,pad=4480:1440:0:0:black[base];[1:v]scale=1920:1080[over];\
          [base][over]overlay=2560:180:eof_action=pass[v]"
            .to_string()
    ));
    assert!(compose.windows(2).any(|w| w[0] == "-map" && w[1] == "0:a"));
    assert_eq!(compose.last(), Some(&video));
    // The two recordings are gone, the video stays.
    let left: Vec<String> = rec.files.lock().unwrap().keys().cloned().collect();
    assert_eq!(left, vec![video]);
    // Both groups got SIGINT, nothing stronger.
    let log = rec.spawner().signal_log();
    assert_eq!(log.len(), 2);
    assert!(log.iter().all(|e| e.group && e.signal == Signal::Interrupt));
    assert_ne!(log[0].pid, log[1].pid);
}

#[test]
fn both_needs_exactly_two_monitors() {
    let paths = TempPaths::new();
    let mut rec = make_recorder(&paths, FakeSpawner::new());
    let one = vec![monitor("DP-1", 0, 0, 10, 10)];
    let r = rec.start_both(None, true, &one);
    assert_eq!(r.code, MachineCode::Invalid);
    assert_eq!(r.message, "both requires exactly two monitors (known: DP-1)");
    let mut three = two_monitors();
    three.push(monitor("eDP-1", 0, 0, 10, 10));
    let r = rec.start_both(None, true, &three);
    assert_eq!(r.code, MachineCode::Invalid);
    assert!(r.message.contains("DP-1, HDMI-A-1, eDP-1"), "{r:?}");
    let r = rec.start_both(None, true, &Vec::new());
    assert!(r.message.contains("none"), "{r:?}");
    assert!(rec.spawner().spawns.is_empty());
}

#[test]
fn both_needs_positions() {
    let paths = TempPaths::new();
    let mut rec = make_recorder(&paths, FakeSpawner::new());
    let names = vec![OutputInfo::names_only("A"), OutputInfo::names_only("B")];
    let r = rec.start_both(None, true, &names);
    assert_eq!(r.code, MachineCode::Invalid);
    assert!(r.message.contains("hyprctl"), "{r:?}");
    assert!(rec.spawner().spawns.is_empty());
}

#[test]
fn both_needs_its_programs() {
    let paths = TempPaths::new();
    for binary in ["ffmpeg", "wf-recorder"] {
        let mut spawner = FakeSpawner::new();
        spawner.missing.push(binary.into());
        let mut rec = make_recorder(&paths, spawner);
        let r = rec.start_both(None, true, &two_monitors());
        assert_eq!(r.code, MachineCode::DepMissing);
        assert_eq!(r.message, format!("missing hard dependency: {binary}"));
    }
}

#[test]
fn both_is_exclusive() {
    let paths = TempPaths::new();
    let mut rec = make_recorder(&paths, FakeSpawner::new());
    assert!(rec.start_both(None, false, &two_monitors()).ok);
    let r = rec.start_fullscreen(None, false, None, None);
    assert_eq!(r.code, MachineCode::Busy);
    let r = rec.start_both(None, false, &two_monitors());
    assert_eq!(r.code, MachineCode::Busy);
    assert_eq!(rec.spawner().wf_spawns().len(), 2);
}

#[test]
fn both_second_spawn_fails_ends_the_first() {
    let paths = TempPaths::new();
    let mut spawner = FakeSpawner::new();
    spawner.fail_spawn = Some(1);
    let mut rec = make_recorder(&paths, spawner);
    let r = rec.start_both(None, false, &two_monitors());
    assert_eq!(r.code, MachineCode::SpawnFailed);
    assert_eq!(rec.state(), State::Idle);
    let log = rec.spawner().signal_log();
    assert_eq!(log.len(), 1);
    assert_eq!(log[0].pid, 2000);
}

#[test]
fn both_early_exit_fails_the_start() {
    let paths = TempPaths::new();
    let mut spawner = FakeSpawner::new();
    spawner.push_script(FakeChildScript::default());
    spawner.push_script(FakeChildScript {
        already_dead: true,
        stderr: "no such output".into(),
        ..Default::default()
    });
    spawner.recorder_exit = ExitStatus::Code(1);
    let mut rec = make_recorder(&paths, spawner);
    let r = rec.start_both(None, false, &two_monitors());
    assert!(!r.ok);
    assert!(r.message.contains("DP-1") && r.message.contains("no such output"), "{r:?}");
    assert_eq!(rec.state(), State::Idle);
    // The peer was ended.
    assert_eq!(rec.spawner().signal_log()[0].pid, 2000);
}

#[test]
fn both_lost_recorder_composes_nothing() {
    let paths = TempPaths::new();
    let mut spawner = FakeSpawner::new();
    spawner.push_script(FakeChildScript {
        auto_exit_after_try_waits: Some(1),
        ..Default::default()
    });
    let mut rec = make_recorder(&paths, spawner);
    assert!(rec.start_both(None, false, &two_monitors()).ok);
    let r = rec.poll().unwrap();
    assert_eq!(r.code, MachineCode::IoError);
    assert!(
        r.message
            .starts_with("recording failed: unexpected exit of the recorder for HDMI-A-1 ("),
        "{r:?}"
    );
    assert!(r.message.contains("(recordings kept: "), "{r:?}");
    assert_eq!(rec.state(), State::Idle);
    assert!(rec.clipboard().texts.is_empty());
    assert!(!rec.spawner().spawns.iter().any(|s| s.argv[0] == "ffmpeg"));
    assert_eq!(rec.spawner().signal_log()[0].pid, 2001);
}

#[test]
fn both_empty_recording_composes_nothing() {
    let paths = TempPaths::new();
    let mut spawner = FakeSpawner::new();
    spawner.auto_write_bytes = Some(Vec::new());
    let mut rec = make_recorder(&paths, spawner);
    assert!(rec.start_both(None, false, &two_monitors()).ok);
    let r = rec.stop();
    assert!(!r.ok);
    assert!(
        r.message.starts_with("recording failed: output missing or empty ("),
        "{r:?}"
    );
    assert!(!rec.spawner().spawns.iter().any(|s| s.argv[0] == "ffmpeg"));
    assert_eq!(rec.files.lock().unwrap().len(), 2);
}

#[test]
fn both_failed_composing_keeps_the_recordings() {
    let paths = TempPaths::new();
    let mut spawner = FakeSpawner::new();
    spawner.composer.exit = ExitStatus::Code(1);
    spawner.composer.stderr = "bad filter".into();
    spawner.composed_bytes = None;
    let mut rec = make_recorder(&paths, spawner);
    assert!(rec.start_both(None, false, &two_monitors()).ok);
    let r = rec.stop();
    assert_eq!(r.code, MachineCode::IoError);
    assert!(r.message.starts_with("composing failed: ffmpeg "), "{r:?}");
    assert!(r.message.contains("-A.mkv") && r.message.contains("-B.mkv"), "{r:?}");
    assert!(r.message.contains("bad filter"), "{r:?}");
    assert!(rec.clipboard().texts.is_empty());
    assert!(rec.last_success_path().is_none());
    assert_eq!(rec.files.lock().unwrap().len(), 2);
    assert_eq!(rec.status().last_error.as_deref(), Some(r.message.as_str()));
}

#[test]
fn both_empty_video_is_no_success() {
    let paths = TempPaths::new();
    let mut spawner = FakeSpawner::new();
    spawner.composed_bytes = Some(Vec::new());
    let mut rec = make_recorder(&paths, spawner);
    assert!(rec.start_both(None, false, &two_monitors()).ok);
    let r = rec.stop();
    assert!(!r.ok);
    assert!(r.message.contains("composing failed: output missing or empty"), "{r:?}");
}

#[test]
fn both_composer_that_cannot_run_or_be_waited_for() {
    let paths = TempPaths::new();
    let mut spawner = FakeSpawner::new();
    spawner.fail_binary = Some("ffmpeg".into());
    let mut rec = make_recorder(&paths, spawner);
    assert!(rec.start_both(None, false, &two_monitors()).ok);
    let r = rec.stop();
    assert_eq!(r.code, MachineCode::SpawnFailed);
    assert!(r.message.starts_with("failed to spawn ffmpeg: "), "{r:?}");

    let mut spawner = FakeSpawner::new();
    spawner.composer.wait_fails = true;
    let mut rec = make_recorder(&paths, spawner);
    assert!(rec.start_both(None, false, &two_monitors()).ok);
    let r = rec.stop();
    assert_eq!(r.code, MachineCode::IoError);
    assert!(r.message.starts_with("ffmpeg wait failed: "), "{r:?}");
    assert_eq!(rec.state(), State::Idle);
}

#[test]
fn both_stop_escalates_for_both() {
    let paths = TempPaths::new();
    let mut spawner = FakeSpawner::new();
    spawner.recorder_ignore_sigint = true;
    spawner.recorder_ignore_sigterm = true;
    let mut rec = make_recorder(&paths, spawner);
    assert!(rec.start_both(None, false, &two_monitors()).ok);
    let r = rec.stop();
    assert_eq!(r.code, MachineCode::StopTimeout);
    assert!(r.message.contains("nuclear SIGKILL"), "{r:?}");
    let signals: Vec<_> = rec.spawner().signal_log().iter().map(|e| e.signal).collect();
    assert_eq!(
        signals,
        vec![
            Signal::Interrupt,
            Signal::Interrupt,
            Signal::Terminate,
            Signal::Terminate,
            Signal::Kill,
            Signal::Kill
        ]
    );
    assert_eq!(
        rec.stop_sent_signals(),
        &vec![Signal::Interrupt, Signal::Terminate, Signal::Kill]
    );
    assert_eq!(rec.state(), State::Idle);
}

#[test]
fn both_avoids_names_that_are_taken() {
    let paths = TempPaths::new();
    let spawner = FakeSpawner::new();
    let kept = format!("{}/.record-ui-both-20240115-123725-B.mkv", paths.output_dir());
    spawner.files.lock().unwrap().insert(kept.clone(), b"old".to_vec());
    let mut rec = make_recorder(&paths, spawner);
    assert!(rec.start_both(None, false, &two_monitors()).ok);
    assert_eq!(
        rec.output_path(),
        Some("/home/test/rig/Videos/rec-20240115-123725-1.mp4")
    );
    assert!(rec.stop().ok);
    assert_eq!(rec.files.lock().unwrap().get(&kept).unwrap(), b"old");
}

#[test]
fn both_release_ends_both() {
    let paths = TempPaths::new();
    let mut rec = make_recorder(&paths, FakeSpawner::new());
    assert!(rec.start_both(None, false, &two_monitors()).ok);
    rec.release();
    assert_eq!(rec.state(), State::Idle);
    let pids: Vec<_> = rec.spawner().signal_log().iter().map(|e| e.pid).collect();
    assert_eq!(pids, vec![2000, 2001]);
}

#[test]
fn both_stop_signals_each_recorder() {
    let paths = TempPaths::new();
    let mut rec = make_recorder(&paths, FakeSpawner::new());
    assert!(rec.start_both(None, false, &two_monitors()).ok);
    assert_eq!(rec.status().pid, Some(2000));
    assert!(rec.stop().ok);
    let log: Vec<_> = rec
        .spawner()
        .signal_log()
        .iter()
        .map(|e| (e.pid, e.signal, e.group))
        .collect();
    assert_eq!(
        log,
        vec![
            (2000, Signal::Interrupt, true),
            (2001, Signal::Interrupt, true)
        ]
    );
}

#[test]
fn both_lost_second_recorder_ends_the_first() {
    let paths = TempPaths::new();
    let mut spawner = FakeSpawner::new();
    spawner.push_script(FakeChildScript::default());
    spawner.push_script(FakeChildScript {
        auto_exit_after_try_waits: Some(1),
        stderr: "gone".into(),
        ..Default::default()
    });
    let mut rec = make_recorder(&paths, spawner);
    assert!(rec.start_both(None, false, &two_monitors()).ok);
    let r = rec.poll().unwrap();
    assert!(r.message.contains("the recorder for DP-1 (") && r.message.contains("gone"), "{r:?}");
    let log = rec.spawner().signal_log();
    assert!(log.iter().all(|e| e.pid == 2000 && e.group), "{log:?}");
    assert_eq!(log[0].signal, Signal::Interrupt);
}

#[test]
fn composer_that_cannot_be_waited_for_is_ended() {
    let paths = TempPaths::new();
    let mut spawner = FakeSpawner::new();
    spawner.composer.wait_fails = true;
    let mut rec = make_recorder(&paths, spawner);
    assert!(rec.start_both(None, false, &two_monitors()).ok);
    assert!(!rec.stop().ok);
    let last = rec.spawner().signal_log().last().unwrap().clone();
    assert_eq!((last.pid, last.group), (2002, true));
}

// ----- The session of a server -----

type TestState = SessionState<FakeSpawner, FakeClock, FakeNotifier, FakeClipboard>;

struct TestServer {
    state: TestState,
    files: Files,
    /// What the client that waits for a region is answered.
    answered: Vec<IpcResponse>,
}

impl TestServer {
    fn new(spawner: FakeSpawner) -> Self {
        let paths = TempPaths::new();
        let mut cfg = paths.config();
        cfg.notify = false;
        let files = Arc::clone(&spawner.files);
        let rec = Recorder::new(
            spawner,
            FakeClock::at_secs(TEST_UNIX),
            FakeNotifier::default(),
            FakeClipboard::default(),
            cfg,
            CWD,
        );
        TestServer {
            state: SessionState::new(rec),
            files,
            answered: Vec::new(),
        }
    }

    /// Hand a request in; nothing comes back while a region is selected.
    fn send(&mut self, req: &IpcRequest) -> Option<(IpcResponse, ConnAction)> {
        match self.state.receive(false, &RequestRead::Request(req.clone())) {
            Received::Proceed { .. } => {}
            other => panic!("{other:?}"),
        }
        let was_busy = self.state.recorder().state().is_busy();
        match self.state.dispatch(req, &two_monitors()) {
            Work::Park => {
                if let Some(p) = self.state.park() {
                    self.answered.push(p);
                }
                None
            }
            Work::ListAudio => panic!("no audio here"),
            Work::Recorder(step) => {
                let result = drive(self.state.recorder_mut(), &self.files, step);
                let answer = self.state.conclude(req, was_busy, result);
                if let Some(p) = answer.pending {
                    self.answered.push(p);
                }
                Some((answer.response, answer.action))
            }
        }
    }

    fn poll(&mut self) {
        if let Some(step) = self.state.poll() {
            let result = drive(self.state.recorder_mut(), &self.files, step);
            if let Some(p) = self.state.poll_over(&result) {
                self.answered.push(p);
            }
        }
    }

    fn request(&mut self, req: &IpcRequest) -> IpcResponse {
        match self.send(req) {
            Some((r, _)) => r,
            None => {
                self.poll();
                self.answered.pop().expect("answer")
            }
        }
    }
}

fn ready_slurp(geom: &str) -> FakeChildScript {
    FakeChildScript {
        already_dead: true,
        ..slurp_ok(geom)
    }
}

fn slurp_blocking() -> FakeChildScript {
    FakeChildScript {
        wait_for_signal: true,
        exit: ExitStatus::Code(1),
        write_bytes_on_signal: None,
        ..Default::default()
    }
}

/// start then status from second client.
#[test]
fn i1_start_then_status_shows_recording_and_path() {
    let mut spawner = FakeSpawner::new();
    spawner.push_script(ready_slurp("0,0 800x600"));
    let mut server = TestServer::new(spawner);

    let start = server.request(&IpcRequest::start_region(None));
    assert!(start.ok, "{start:?}");
    assert_eq!(start.status.state, "Recording");
    assert!(start.status.output_path.is_some(), "{start:?}");

    let status = server.request(&IpcRequest::status());
    assert_eq!(status.status.state, "Recording");
    assert_eq!(status.status.output_path, start.status.output_path);
    assert!(status.status.pid.is_some());
    assert_eq!(status_json_from_response(&status), &status.status);
}

/// toggle-region twice → start then stop.
#[test]
fn i2_toggle_region_twice_start_then_stop() {
    let mut spawner = FakeSpawner::new();
    spawner.push_script(ready_slurp("1,2 3x4"));
    let mut server = TestServer::new(spawner);

    let t1 = server.request(&IpcRequest::toggle_region(None));
    assert!(t1.ok, "{t1:?}");
    assert_eq!(t1.status.state, "Recording");

    let t2 = server.request(&IpcRequest::toggle_region(None));
    assert!(t2.ok, "{t2:?}");
    assert_eq!(t2.status.state, "Idle");
}

/// a second start_region while one is selected → busy, exit 2.
#[test]
fn i3_concurrent_start_region_one_recording() {
    let mut spawner = FakeSpawner::new();
    spawner.push_script(ready_slurp("5,5 10x10"));
    let mut server = TestServer::new(spawner);

    assert!(server.send(&IpcRequest::start_region(None)).is_none());
    let (second, _) = server.send(&IpcRequest::start_region(None)).unwrap();
    assert_eq!(second.code, "busy");
    assert_eq!(second.cli_exit_code(), 2);
    server.poll();
    let first = server.answered.pop().unwrap();
    assert!(first.ok, "{first:?}");
    assert_eq!(first.status.state, "Recording");
    let st = server.request(&IpcRequest::status());
    assert_eq!(st.status.state, "Recording");
}

/// Mid-selection cancel from second client.
#[test]
fn i_mid_selection_cancel_from_second_client() {
    let mut spawner = FakeSpawner::new();
    spawner.push_script(slurp_blocking());
    let mut server = TestServer::new(spawner);

    assert!(server.send(&IpcRequest::start_region(None)).is_none());
    server.poll();
    let st = server.request(&IpcRequest::status());
    assert_eq!(st.status.state, "SelectingRegion");

    let (stop, _) = server.send(&IpcRequest::stop()).unwrap();
    assert!(stop.ok, "{stop:?}");
    assert!(
        stop.code == "slurp_cancel" || stop.status.state == "Idle",
        "{stop:?}"
    );

    let start_resp = server.answered.pop().unwrap();
    assert_eq!(start_resp.code, "slurp_cancel", "{start_resp:?}");
    assert_eq!(start_resp.cli_exit_code(), 0);
    assert!(!server.state.has_pending_region());
}

/// stop with server idle → clean no-op.
#[test]
fn i5_stop_when_idle_is_noop_success() {
    let mut server = TestServer::new(FakeSpawner::new());
    let stop = server.request(&IpcRequest::stop());
    assert!(stop.ok, "{stop:?}");
    assert_eq!(stop.code, "ok");
    assert_eq!(stop.status.state, "Idle");
    assert_eq!(stop.cli_exit_code(), 0);
}

/// Idle-exit: a probe keeps the server; a status request then lets it end.
#[test]
fn idle_exit_ignores_probe_exits_after_status() {
    let mut server = TestServer::new(FakeSpawner::new());
    assert!(matches!(
        server.state.receive(false, &RequestRead::Eof),
        Received::Close
    ));
    assert!(!server.state.should_idle_exit(true));
    let st = server.request(&IpcRequest::status());
    assert_eq!(st.status.state, "Idle");
    assert!(server.state.should_idle_exit(true));
    assert!(!server.state.should_idle_exit(false));
}

/// GUI subscribe hold: an idle server stays up while a view is connected.
#[test]
fn subscribe_hold_blocks_idle_exit_until_disconnect() {
    let sub_req = IpcRequest::subscribe();
    assert_eq!(sub_req.cmd, IpcCommand::Subscribe);
    assert_eq!(sub_req.gui, Some(true));

    let mut server = TestServer::new(FakeSpawner::new());
    let (sub, action) = server.send(&sub_req).unwrap();
    assert!(sub.ok, "{sub:?}");
    assert_eq!(sub.message, "subscribed");
    assert_eq!(sub.code, "ok");
    assert_eq!(action, ConnAction::HoldGui);

    let st = server.request(&IpcRequest::status());
    assert_eq!(st.status.state, "Idle");
    assert!(!server.state.should_idle_exit(true));
    server.state.gui_views_dropped(1);
    assert!(server.state.should_idle_exit(true));
}

/// GUI disconnect mid-recording: recording continues; stop still works.
#[test]
fn gui_disconnect_mid_recording_keeps_session() {
    let mut spawner = FakeSpawner::new();
    spawner.push_script(ready_slurp("0,0 100x100"));
    let mut server = TestServer::new(spawner);
    assert!(server.request(&IpcRequest::subscribe()).ok);
    let start = server.request(&IpcRequest::start_region(None));
    assert_eq!(start.status.state, "Recording");
    server.state.gui_views_dropped(1);
    let st = server.request(&IpcRequest::status());
    assert_eq!(
        st.status.state, "Recording",
        "recording must continue after GUI close"
    );
    assert!(!server.state.should_idle_exit(true));
    let stop = server.request(&IpcRequest::stop());
    assert!(stop.ok, "{stop:?}");
    assert_eq!(stop.status.state, "Idle");
}

/// Dual subscribe: both count; both must disconnect before idle-exit.
#[test]
fn dual_subscribe_reap_both_before_idle_exit() {
    let mut server = TestServer::new(FakeSpawner::new());
    let s1 = server.request(&IpcRequest::subscribe());
    let s2 = server.request(&IpcRequest::subscribe());
    assert!(s1.ok && s2.ok);
    assert_eq!(server.state.gui_clients(), 2);
    server.state.gui_views_dropped(1);
    assert!(!server.state.should_idle_exit(true));
    server.state.gui_views_dropped(1);
    assert!(server.state.should_idle_exit(true));
}

/// CLI start/stop while GUI subscribe is held.
#[test]
fn cli_start_stop_under_gui_hold() {
    let mut spawner = FakeSpawner::new();
    spawner.push_script(ready_slurp("1,1 2x2"));
    let mut server = TestServer::new(spawner);
    assert!(server.request(&IpcRequest::subscribe()).ok);
    let start = server.request(&IpcRequest::start_region(None));
    assert!(start.ok, "{start:?}");
    assert_eq!(start.status.state, "Recording");
    let stop = server.request(&IpcRequest::stop());
    assert!(stop.ok, "{stop:?}");
    assert_eq!(stop.status.state, "Idle");
}

/// notify_start suppressed when gui_clients > 0 (via handle_request path).
#[test]
fn notify_start_suppressed_when_gui_clients_nonzero() {
    let paths = TempPaths::new();
    let mut spawner = FakeSpawner::new();
    spawner.push_script(slurp_ok("0,0 10x10"));
    let mut rec = make_recorder(&paths, spawner);

    // gui_clients = 1 → notify_start false inside handle_request.
    let req = IpcRequest::start_region(None);
    let step = match handle_request(&mut rec.rec, &req, 1, &Vec::new()) {
        Work::Recorder(step) => step,
        other => panic!("{other:?}"),
    };
    let result = drive(&mut rec.rec, &rec.files, step);
    let out = finish_request(&rec.rec, &req, result);
    assert!(out.response.ok, "{:?}", out.response);
    assert_eq!(out.response.status.state, "Recording");
    assert!(
        !rec.notifier()
            .calls
            .iter()
            .any(|(_, b)| b.contains("Recording started")),
        "start toast must be suppressed when GUI clients attached: {:?}",
        rec.notifier().calls
    );
}

#[test]
fn malformed_ipc_returns_invalid_then_ping_works() {
    let mut server = TestServer::new(FakeSpawner::new());
    match server.state.receive(false, &RequestRead::Malformed("key must be a string".into())) {
        Received::Refuse(resp) => {
            assert_eq!(resp.code, "invalid");
            assert!(!resp.ok);
            assert_eq!(resp.message, "invalid request: key must be a string");
        }
        other => panic!("{other:?}"),
    }
    match server.state.receive(false, &RequestRead::TooLong("too long".into())) {
        Received::Refuse(resp) => assert_eq!(resp.message, "too long"),
        other => panic!("{other:?}"),
    }
    assert!(matches!(
        server.state.receive(false, &RequestRead::Blank),
        Received::Again
    ));
    let pong = server.request(&IpcRequest::ping());
    assert!(pong.ok);
    assert_eq!(pong.message, "pong");
}

/// Parked region client disconnect cancels selection (no Recording).
#[test]
fn pending_client_hangup_cancels_selection() {
    let mut spawner = FakeSpawner::new();
    spawner.push_script(slurp_blocking());
    let mut server = TestServer::new(spawner);
    assert!(server.send(&IpcRequest::start_region(None)).is_none());
    let step = server.state.pending_hung_up().unwrap();
    let result = drive(server.state.recorder_mut(), &server.files, step);
    assert_eq!(result.code, MachineCode::SlurpCancel);
    let st = server.request(&IpcRequest::status());
    assert_eq!(st.status.state, "Idle");
    assert!(server.state.recorder().spawner().wf_spawns().is_empty());
}

#[test]
fn second_region_client_supersedes_the_first() {
    let mut server = TestServer::new(FakeSpawner::new());
    assert!(server.state.park().is_none());
    let told = server.state.park().unwrap();
    assert_eq!(told.code, "busy");
    assert_eq!(told.message, "superseded region selection");
}

#[test]
fn shutdown_stops_and_ends_the_server() {
    let mut server = TestServer::new(FakeSpawner::new());
    let start = server.request(&IpcRequest::start_fullscreen(None, Some("DP-1".into()), None));
    assert_eq!(start.status.capture_mode.as_deref(), Some("one"));
    let (resp, action) = server.send(&IpcRequest::shutdown()).unwrap();
    assert!(resp.ok, "{resp:?}");
    assert_eq!(resp.message, "shutting down");
    assert_eq!(action, ConnAction::Done { want_shutdown: true });
    assert!(server.state.wants_shutdown());
    assert_eq!(resp.status.state, "Idle");
}

#[test]
fn shutdown_of_two_recorders_composes_nothing() {
    let mut server = TestServer::new(FakeSpawner::new());
    let start = server.request(&IpcRequest::start_both(None));
    assert_eq!(start.status.capture_mode.as_deref(), Some("both"));
    let (resp, action) = server.send(&IpcRequest::shutdown()).unwrap();
    assert_eq!(action, ConnAction::Done { want_shutdown: true });
    assert!(server.state.wants_shutdown());
    assert_eq!(resp.status.state, "Idle");
    assert!(!resp.ok, "{resp:?}");
    assert!(
        resp.message
            .starts_with("shutting down: recording not composed: the session was shut down (recordings kept: "),
        "{resp:?}"
    );
    assert!(resp.message.contains("-A.mkv, ") && resp.message.contains("-B.mkv)"), "{resp:?}");
    assert_eq!(resp.status.last_success_path, None);
    let spawner = server.state.recorder().spawner();
    assert!(!spawner.spawns.iter().any(|s| s.argv[0] == "ffmpeg"));
    let log: Vec<_> = spawner.signal_log().iter().map(|e| (e.pid, e.signal)).collect();
    assert_eq!(
        log,
        vec![(2000, Signal::Interrupt), (2001, Signal::Interrupt)]
    );
    assert!(server.state.recorder().clipboard().texts.is_empty());
    assert!(server.state.recorder_mut().take_discarded().is_empty());
}

#[test]
fn shutdown_of_two_stubborn_recorders_kills_them() {
    let paths = TempPaths::new();
    let mut spawner = FakeSpawner::new();
    spawner.recorder_ignore_sigint = true;
    spawner.recorder_ignore_sigterm = true;
    let mut rec = make_recorder(&paths, spawner);
    assert!(rec.start_both(None, false, &two_monitors()).ok);
    match rec.shut_down() {
        Step::Done(r) => {
            assert_eq!(r.code, MachineCode::StopTimeout);
            assert!(r.message.contains("-A.mkv, ") && r.message.contains("-B.mkv)"), "{r:?}");
        }
        other => panic!("{other:?}"),
    }
    assert_eq!(rec.state(), State::Idle);
    assert_eq!(
        rec.stop_sent_signals(),
        &vec![Signal::Interrupt, Signal::Terminate, Signal::Kill]
    );
    // At rest there is nothing to shut down.
    match rec.shut_down() {
        Step::Done(r) => assert_eq!(r.message, "already idle"),
        other => panic!("{other:?}"),
    }
}
