use hyprcap::ipc::{IpcResponse, IpcStatus};
use hyprcap::status::{MachineCode, State, Status};

#[test]
fn response_exit_codes() {
    let st = Status {
        state: State::Idle,
        output_path: None,
        pid: None,
        started_at_unix: None,
        audio: false,
        last_error: None,
        last_success_path: None,
        elapsed_ms: None,
        capture_output: None,
        capture_mode: None,
    };
    let cases = [
        (MachineCode::Success, 0),
        (MachineCode::SlurpCancel, 0),
        (MachineCode::Busy, 2),
        (MachineCode::NotRecording, 3),
        (MachineCode::DepMissing, 4),
        (MachineCode::SpawnFailed, 1),
        (MachineCode::StopTimeout, 1),
        (MachineCode::IoError, 1),
        (MachineCode::Invalid, 1),
    ];
    for (code, exit) in cases {
        let resp = IpcResponse::err(code, "x", &st);
        // Ok/SlurpCancel may be ok:true in real use; exit_code is what matters.
        assert_eq!(code.exit_code(), exit, "MachineCode::{code:?} exit");
        assert_eq!(resp.cli_exit_code(), exit, "IpcResponse {code:?}");
    }
    let cancel = IpcResponse {
        ok: true,
        code: "slurp_cancel".into(),
        message: "cancel".into(),
        status: IpcStatus::from(&st),
        warnings: vec![],
        audio_list: None,
    };
    assert_eq!(cancel.cli_exit_code(), 0);
}

#[test]
fn code_words_read_back() {
    let st = Status {
        state: State::Recording,
        output_path: Some("/v/x.mp4".into()),
        pid: Some(3),
        started_at_unix: Some(9),
        audio: true,
        last_error: None,
        last_success_path: None,
        elapsed_ms: Some(12),
        capture_output: Some("DP-1".into()),
        capture_mode: Some("one".into()),
    };
    for code in [
        MachineCode::Success,
        MachineCode::Busy,
        MachineCode::NotRecording,
        MachineCode::DepMissing,
        MachineCode::SlurpCancel,
        MachineCode::SpawnFailed,
        MachineCode::StopTimeout,
        MachineCode::IoError,
        MachineCode::Invalid,
    ] {
        let resp = IpcResponse::err(code, "x", &st);
        assert_eq!(resp.machine_code(), code);
        assert_eq!(resp.code, code.as_str());
        assert_eq!(resp.status.state, "Recording");
        assert_eq!(resp.status.pid, Some(3));
        assert_eq!(resp.status.capture_output.as_deref(), Some("DP-1"));
    }
    let mut odd = IpcResponse::ok_status("x", &st);
    assert!(odd.ok);
    odd.code = "surprise".into();
    assert_eq!(odd.machine_code(), MachineCode::Invalid);
}
