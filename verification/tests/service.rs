use hyprcap::audio::{AudioPlan, SystemAudioMode};
use hyprcap::capture::{map_status, StderrTail, StdoutCapture};
use hyprcap::cli::{
    cli_audio_plan, message_lines, runtime_dir_or_fallback, start_req_both, start_req_fullscreen,
    start_req_region, toggle_by_state, toggle_plan, AudioFlags, TogglePlan,
};
use hyprcap::client::{
    check_reply_len, check_request_len, check_response_len, classify_line, socket_in_runtime,
    ClientError, IoFailure, IoKind, LineRead,
};
use hyprcap::ipc::{IpcCommand, IpcResponse, IpcStatus};
use hyprcap::lifecycle::{
    awaited_server, ensure_step, is_server_command, judge_runtime_dir, judge_tightened, parse_pid,
    pid_file_text, recover_or_busy, refuse_runtime_path, retry_request, started_server,
    which_candidates, BindVerdict, DirFacts, DirVerdict, EnsureStep, Retry,
};
use hyprcap::ports::ExitStatus;
use hyprcap::server::{RuntimePaths, MAX_LINE_BYTES};
use hyprcap::status::{State, Status};

#[test]
fn validate_runtime_dir_rejects_bare_tmp() {
    let err = refuse_runtime_path("/tmp").unwrap();
    assert!(err.contains("/tmp"), "{err}");
    assert_eq!(refuse_runtime_path("/tmp/"), Some(err.clone()));
    assert_eq!(refuse_runtime_path("//tmp/."), Some(err));
    assert_eq!(refuse_runtime_path("/tmp/run"), None);
    assert_eq!(refuse_runtime_path("tmp"), None);
    assert_eq!(refuse_runtime_path("/run/user/1000"), None);
}

#[test]
fn validate_runtime_dir_accepts_owned_private() {
    let facts = DirFacts {
        is_dir: true,
        owner: 1000,
        mode: 0o700,
    };
    assert_eq!(judge_runtime_dir("/run/x", facts, 1000), DirVerdict::Private);
}

#[test]
fn runtime_dir_of_others_is_refused() {
    let facts = DirFacts {
        is_dir: true,
        owner: 0,
        mode: 0o755,
    };
    assert_eq!(
        judge_runtime_dir("/run/x", facts, 1000),
        DirVerdict::Refuse(
            "runtime dir /run/x not owned by current user (uid 0 != euid 1000)".into()
        )
    );
    let file = DirFacts {
        is_dir: false,
        ..facts
    };
    assert_eq!(
        judge_runtime_dir("/run/x", file, 1000),
        DirVerdict::Refuse("runtime path is not a directory: /run/x".into())
    );
}

#[test]
fn open_runtime_dir_is_tightened() {
    for mode in [0o720, 0o702, 0o777] {
        let facts = DirFacts {
            is_dir: true,
            owner: 1000,
            mode,
        };
        assert_eq!(judge_runtime_dir("/run/x", facts, 1000), DirVerdict::Tighten);
        assert_eq!(
            judge_tightened("/run/x", mode).unwrap_err(),
            "runtime dir /run/x remains group/other-writable after chmod"
        );
    }
    assert!(judge_tightened("/run/x", 0o755).is_ok());
}

#[test]
fn pid_files_read_back() {
    for pid in [0, 1, 4711, u32::MAX] {
        assert_eq!(parse_pid(&pid_file_text(pid)), Some(pid));
    }
    assert_eq!(pid_file_text(42), "42\n");
    assert_eq!(parse_pid("not a pid"), None);
    assert_eq!(parse_pid(""), None);
    assert!(is_server_command("record-ui\n"));
    assert!(is_server_command("record-ui-serve"));
    assert!(!is_server_command("bash"));
}

#[test]
fn programs_are_looked_for_in_order() {
    let dirs = vec!["/usr/local/bin".to_string(), "/usr/bin".to_string()];
    assert_eq!(
        which_candidates("slurp", &dirs),
        vec!["/usr/local/bin/slurp", "/usr/bin/slurp"]
    );
    assert_eq!(which_candidates("./x/slurp", &dirs), vec!["./x/slurp"]);
}

#[test]
fn a_socket_in_use_is_kept_by_a_live_server() {
    assert_eq!(recover_or_busy(true, false), BindVerdict::AlreadyRunning);
    assert_eq!(recover_or_busy(false, true), BindVerdict::AlreadyRunning);
    assert_eq!(recover_or_busy(false, false), BindVerdict::TakeOver);
    assert_eq!(ensure_step(true, true, true), EnsureStep::Ready);
    assert_eq!(ensure_step(false, true, true), EnsureStep::Await);
    assert_eq!(ensure_step(false, true, false), EnsureStep::Start { clear: true });
    assert_eq!(ensure_step(false, false, true), EnsureStep::Start { clear: false });
}

#[test]
fn servers_that_do_not_come_up_are_told_of() {
    assert!(awaited_server(true).is_ok());
    assert_eq!(
        awaited_server(false).unwrap_err(),
        "server pid alive but socket not accepting"
    );
    assert!(started_server(true, None).is_ok());
    assert_eq!(
        started_server(true, Some("exit status: 1")).unwrap_err(),
        "server exited immediately: exit status: 1"
    );
    assert_eq!(
        started_server(false, None).unwrap_err(),
        "timeout waiting for server socket"
    );
}

#[test]
fn requests_are_tried_three_times() {
    assert_eq!(retry_request(0, "refused"), Retry::Again { delay_ms: 50 });
    assert_eq!(retry_request(1, "refused"), Retry::Again { delay_ms: 100 });
    assert_eq!(
        retry_request(2, "refused"),
        Retry::GiveUp("failed after 3 attempts: connect: refused".into())
    );
}

#[test]
fn lines_are_capped() {
    assert!(check_request_len(MAX_LINE_BYTES).is_ok());
    assert_eq!(
        check_request_len(MAX_LINE_BYTES + 1).unwrap_err().to_text(),
        "protocol error: request too large"
    );
    assert!(check_response_len(1).is_ok());
    assert_eq!(
        check_response_len(0).unwrap_err().to_text(),
        "protocol error: empty response from server"
    );
    assert_eq!(
        check_response_len(MAX_LINE_BYTES + 1).unwrap_err().to_text(),
        "protocol error: response line too large"
    );
    assert_eq!(classify_line(0), LineRead::Eof);
    assert_eq!(classify_line(MAX_LINE_BYTES), LineRead::Line);
    assert_eq!(
        classify_line(MAX_LINE_BYTES + 1),
        LineRead::TooLong("request line exceeds 65536 bytes".into())
    );
    assert!(check_reply_len(MAX_LINE_BYTES).is_ok());
    assert_eq!(
        check_reply_len(MAX_LINE_BYTES + 1).unwrap_err(),
        "response too large"
    );
}

#[test]
fn client_errors_are_sorted() {
    let connect = ClientError::Connect(IoFailure {
        kind: IoKind::Other,
        message: "no".into(),
    });
    assert_eq!(connect.to_text(), "connect failed: no");
    assert!(connect.is_connect_like() && connect.is_transient());
    let cases = [
        (IoKind::ConnectionReset, true, true),
        (IoKind::ConnectionAborted, true, true),
        (IoKind::BrokenPipe, true, false),
        (IoKind::NotConnected, true, false),
        (IoKind::WouldBlock, false, true),
        (IoKind::TimedOut, false, true),
        (IoKind::Interrupted, false, true),
        (IoKind::Other, false, false),
    ];
    for (kind, gone, passes) in cases {
        let e = ClientError::Io(IoFailure {
            kind,
            message: "x".into(),
        });
        assert_eq!(e.is_connect_like(), gone, "{kind:?}");
        assert_eq!(e.is_transient(), passes, "{kind:?}");
        assert_eq!(e.to_text(), "io error: x");
    }
    let protocol = ClientError::Protocol("x".into());
    assert!(!protocol.is_connect_like() && !protocol.is_transient());
}

#[test]
fn paths_below_the_runtime_dir() {
    let p = RuntimePaths::from_runtime_dir("/run/user/1000/hyprcap");
    assert_eq!(p.socket_path, "/run/user/1000/hyprcap/record-ui.sock");
    assert_eq!(p.pid_path, "/run/user/1000/hyprcap/record-ui.pid");
    assert_eq!(p.lock_path, "/run/user/1000/hyprcap/record-ui.lock");
    assert_eq!(socket_in_runtime("/run/x"), "/run/x/record-ui.sock");
    assert_eq!(runtime_dir_or_fallback(Some("/run/x")), "/run/x");
    assert_eq!(runtime_dir_or_fallback(None), "/tmp/hyprcap-fallback");
}

#[test]
fn stdout_is_captured_whole_or_not_at_all() {
    let mut c = StdoutCapture::new();
    assert!(c.push(b"10,20 "));
    assert!(c.push(b"300x200"));
    assert_eq!(c.finish(), b"10,20 300x200");
    let mut c = StdoutCapture::new();
    assert!(c.push(&[b'x'; 4096]));
    assert!(!c.push(b"y"));
    assert!(!c.push(b"z"));
    assert!(c.finish().is_empty());
}

#[test]
fn stderr_keeps_its_end() {
    let mut t = StderrTail::new();
    t.push(b"abc");
    t.push(b"def");
    assert_eq!(t.finish(), b"abcdef");
    let mut t = StderrTail::new();
    t.push(&[b'x'; 4090]);
    t.push(b"0123456789");
    let tail = t.finish();
    assert_eq!(tail.len(), 4096);
    assert_eq!(&tail[4086..], b"0123456789");
    let mut t = StderrTail::new();
    t.push(b"old");
    t.push(&[b'n'; 5000]);
    assert_eq!(t.finish(), vec![b'n'; 4096]);
}

#[test]
fn exit_statuses_are_mapped() {
    assert_eq!(map_status(Some(3), None), ExitStatus::Code(3));
    assert_eq!(map_status(None, Some(9)), ExitStatus::Signal(9));
    assert_eq!(map_status(None, None), ExitStatus::Signal(0));
}

fn flags() -> AudioFlags {
    AudioFlags {
        audio: false,
        system: None,
        audio_sink: None,
        audio_app: None,
        mic: false,
        mic_device: None,
    }
}

#[test]
fn audio_flags_make_a_plan() {
    assert!(cli_audio_plan(flags()).is_none());
    let p = cli_audio_plan(AudioFlags { audio: true, ..flags() }).unwrap();
    assert_eq!(p, AudioPlan::system_all());
    let p = cli_audio_plan(AudioFlags {
        audio: true,
        system: Some("off".into()),
        ..flags()
    })
    .unwrap();
    assert_eq!(p.system, SystemAudioMode::Off);
    let p = cli_audio_plan(AudioFlags {
        system: Some("nonsense".into()),
        mic_device: Some("mic1".into()),
        ..flags()
    })
    .unwrap();
    assert_eq!(p.system, SystemAudioMode::Off);
    assert!(p.mic);
    assert_eq!(p.mic_device.as_deref(), Some("mic1"));
}

#[test]
fn commands_make_requests() {
    let r = start_req_region(flags());
    assert_eq!(r.cmd, IpcCommand::StartRegion);
    assert!(r.audio_plan.is_none() && r.audio.is_none());
    let r = start_req_fullscreen(
        AudioFlags { mic: true, ..flags() },
        Some("DP-1".into()),
        Some(30),
    );
    assert_eq!(r.cmd, IpcCommand::StartFullscreen);
    assert_eq!((r.output.as_deref(), r.fps), (Some("DP-1"), Some(30)));
    assert!(r.audio_plan.unwrap().mic);
    assert_eq!(start_req_both(flags()).cmd, IpcCommand::StartBoth);
}

#[test]
fn toggles_ask_for_the_state_when_a_switch_is_too_little() {
    match toggle_plan(flags()) {
        TogglePlan::Toggle(r) => {
            assert_eq!(r.cmd, IpcCommand::ToggleRegion);
            assert_eq!(r.audio, None);
        }
        other => panic!("{other:?}"),
    }
    match toggle_plan(AudioFlags { audio: true, ..flags() }) {
        TogglePlan::Toggle(r) => assert_eq!(r.audio, Some(true)),
        other => panic!("{other:?}"),
    }
    let plan = match toggle_plan(AudioFlags { mic: true, ..flags() }) {
        TogglePlan::ByState(p) => p,
        other => panic!("{other:?}"),
    };
    let start = toggle_by_state("Idle", plan.clone());
    assert_eq!(start.cmd, IpcCommand::StartRegion);
    assert_eq!(start.audio_plan, Some(plan.clone()));
    assert_eq!(toggle_by_state("Recording", plan).cmd, IpcCommand::Stop);
}

#[test]
fn messages_and_warnings_are_printed() {
    let status = Status {
        state: State::Idle,
        output_path: None,
        pid: None,
        started_at_unix: None,
        audio: false,
        last_error: None,
        last_success_path: None,
        elapsed_ms: None,
        capture_output: None,
        capture_mode: None,
    };
    let mut resp = IpcResponse {
        ok: true,
        code: "ok".into(),
        message: "saved x".into(),
        status: IpcStatus::from(&status),
        warnings: vec!["a".into(), "b".into()],
        audio_list: None,
    };
    assert_eq!(
        message_lines(&resp),
        vec!["saved x", "warning: a", "warning: b"]
    );
    resp.message = String::new();
    resp.warnings.clear();
    assert!(message_lines(&resp).is_empty());
}
