use hyprcap::audio::{
    AudioAppInfo, AudioInventory, AudioPlan, AudioSinkInfo, AudioSourceInfo, SystemAudioMode,
};
use hyprcap::client::{ClientError, IoFailure, IoKind};
use hyprcap::config::Config;
use hyprcap::ipc::{IpcCommand, IpcResponse, IpcStatus};
use hyprcap::output::resolve_one_fps;
use hyprcap::outputs::OutputInfo;
use hyprcap::picker::{
    both_enablement, build_fps_entries, default_monitor_index, ipc_fps_for_start,
    monitor_combo_label, native_fps_hz, remember_pickers, select_fps_index, select_monitor_index,
    PickerState,
};
use hyprcap::sound::{
    detail_labels, detail_selection, mic_labels, mic_selection, plan_from_selection,
    system_mode_at, system_mode_index,
};
use hyprcap::view::{
    append_warnings, audio_list_message, chrome, format_capture_message, format_elapsed,
    format_op_message, format_stopping_message, refuse_plan, refuse_start,
    should_revalidate_both_on_idle, starting_message, status_message_line, timer_should_tick,
    Click, ErrorSource, Moment, OpKind, PrimaryButton, UiMsg, ViewState,
    BOTH_REVALIDATE_IDLE_MIN_MS,
};
use hyprcap::worker::{
    attach_outcome, revival_outcome, revive_failed, start_outcome, subscribe_pause,
    subscribe_refused, Batch, Link, PollFailure, PollNext, Revival, WorkerCmd, CONNECT_FAIL_LIMIT,
};

fn out(name: &str, w: Option<i32>, h: Option<i32>, refresh: Option<f64>) -> OutputInfo {
    OutputInfo {
        name: name.into(),
        x: Some(0),
        y: Some(0),
        width: w,
        height: h,
        refresh: refresh.map(|r| format!("{r:?}")),
    }
}

#[test]
fn monitor_label_includes_resolution() {
    let o = out("HDMI-A-1", Some(2560), Some(1440), Some(144.0));
    assert_eq!(monitor_combo_label(&o), "HDMI-A-1 · 2560×1440");
    let bare = OutputInfo::names_only("DP-1");
    assert_eq!(monitor_combo_label(&bare), "DP-1");
    // Partial / zero geometry → name only.
    let partial = OutputInfo {
        name: "eDP-1".into(),
        x: Some(0),
        y: None,
        width: Some(1920),
        height: None,
        refresh: None,
    };
    assert_eq!(monitor_combo_label(&partial), "eDP-1");
    let zero = out("Z", Some(0), Some(1080), None);
    assert_eq!(monitor_combo_label(&zero), "Z");
}

#[test]
fn default_monitor_is_largest_area_name_tiebreak() {
    let inv = vec![
        out("B-small", Some(1920), Some(1080), Some(60.0)),
        out("A-large", Some(2560), Some(1440), Some(144.0)),
    ];
    assert_eq!(default_monitor_index(&inv), 1);
    // Equal area → name ascending (A before B).
    let tied = vec![
        out("B", Some(1920), Some(1080), Some(60.0)),
        out("A", Some(1920), Some(1080), Some(60.0)),
    ];
    assert_eq!(default_monitor_index(&tied), 1); // "A"
    assert_eq!(default_monitor_index(&vec![]), 0);
}

#[test]
fn select_monitor_prefers_config_pin() {
    let inv = vec![
        out("HDMI-A-1", Some(2560), Some(1440), Some(144.0)),
        out("DP-1", Some(1920), Some(1080), Some(60.0)),
    ];
    assert_eq!(select_monitor_index(&inv, Some("DP-1")), 1);
    assert_eq!(select_monitor_index(&inv, Some("GONE")), 0); // largest
    assert_eq!(select_monitor_index(&inv, None), 0);
    // Whitespace-only pin ignored.
    assert_eq!(select_monitor_index(&inv, Some("  ")), 0);
    assert_eq!(select_monitor_index(&inv, Some("  DP-1  ")), 1);
}

#[test]
fn fps_entries_dedupe_native_60() {
    let e = build_fps_entries(Some(60), None);
    let labels: Vec<_> = e.iter().map(|x| x.label.as_str()).collect();
    assert_eq!(labels, vec!["Auto", "60 (native)", "30"]);
    assert_eq!(e[1].fps, Some(60));
    assert!(e[1].is_native);
    assert!(e.iter().filter(|x| x.fps == Some(60)).count() == 1);
}

#[test]
fn fps_entries_dedupe_native_30() {
    let e = build_fps_entries(Some(30), None);
    let labels: Vec<_> = e.iter().map(|x| x.label.as_str()).collect();
    assert_eq!(labels, vec!["Auto", "30 (native)", "60"]);
    assert!(e[1].is_native);
    assert_eq!(e[1].fps, Some(30));
}

#[test]
fn fps_entries_144_native_offers_60_30() {
    let e = build_fps_entries(Some(144), None);
    let labels: Vec<_> = e.iter().map(|x| x.label.as_str()).collect();
    assert_eq!(labels, vec!["Auto", "144 (native)", "60", "30"]);
}

#[test]
fn fps_entries_includes_extra_pin() {
    let e = build_fps_entries(Some(144), Some(120));
    let labels: Vec<_> = e.iter().map(|x| x.label.as_str()).collect();
    assert_eq!(labels, vec!["Auto", "144 (native)", "120", "60", "30"]);
    assert_eq!(select_fps_index(&e, Some(120), true), 2);
}

#[test]
fn fps_entries_unknown_native() {
    let e = build_fps_entries(None, None);
    let labels: Vec<_> = e.iter().map(|x| x.label.as_str()).collect();
    assert_eq!(labels, vec!["Auto", "60", "30"]);
}

#[test]
fn select_fps_prefers_config_then_native() {
    let e = build_fps_entries(Some(144), None);
    assert_eq!(select_fps_index(&e, Some(30), true), 3);
    assert_eq!(select_fps_index(&e, Some(999), true), 1); // fall back native
    assert_eq!(select_fps_index(&e, None, true), 1); // native default
    assert_eq!(select_fps_index(&e, None, false), 0); // Auto
}

#[test]
fn native_fps_rounds() {
    assert_eq!(native_fps_hz(Some("59.951")), Some(60));
    assert_eq!(native_fps_hz(Some("144.0")), Some(144));
    assert_eq!(native_fps_hz(None), None);
    assert_eq!(native_fps_hz(Some("0.0")), None);
    assert_eq!(native_fps_hz(Some("-1.0")), None);
    assert_eq!(native_fps_hz(Some(&format!("{:?}", f64::NAN))), None);
    assert_eq!(native_fps_hz(Some(&format!("{:?}", f64::INFINITY))), None);
}

#[test]
fn ipc_fps_for_start_auto_and_rate() {
    assert_eq!(ipc_fps_for_start(None), Some(0));
    assert_eq!(ipc_fps_for_start(Some(144)), Some(144));
    assert_eq!(ipc_fps_for_start(Some(30)), Some(30));
}

#[test]
fn picker_state_defaults_largest_and_native() {
    let inv = vec![
        out("DP-1", Some(1920), Some(1080), Some(60.0)),
        out("HDMI-A-1", Some(2560), Some(1440), Some(144.0)),
    ];
    let cfg = Config::with_home("/home/test", None);
    let p = PickerState::from_inventory_and_config(inv, &cfg);
    assert_eq!(p.selected_output_name(), Some("HDMI-A-1"));
    assert_eq!(p.selected_fps_value(), Some(144));
}

#[test]
fn picker_state_uses_config_pins() {
    let inv = vec![
        out("HDMI-A-1", Some(2560), Some(1440), Some(144.0)),
        out("DP-1", Some(1920), Some(1080), Some(60.0)),
    ];
    let mut cfg = Config::with_home("/home/test", None);
    cfg.fullscreen_output = Some("DP-1".into());
    cfg.one_fps = Some(30);
    let p = PickerState::from_inventory_and_config(inv, &cfg);
    assert_eq!(p.selected_output_name(), Some("DP-1"));
    assert_eq!(p.selected_fps_value(), Some(30));
}

#[test]
fn picker_state_auto_sentinel_and_first_run() {
    let inv = vec![out("HDMI-A-1", Some(2560), Some(1440), Some(144.0))];
    // Sticky Auto: one_fps = 0.
    let mut cfg = Config::with_home("/home/test", None);
    cfg.fullscreen_output = Some("HDMI-A-1".into());
    cfg.one_fps = Some(0);
    let p = PickerState::from_inventory_and_config(inv.clone(), &cfg);
    assert_eq!(p.selected_output_name(), Some("HDMI-A-1"));
    assert_eq!(p.selected_fps_value(), None); // Auto
                                              // First-run: one_fps absent → native.
    cfg.one_fps = None;
    let p2 = PickerState::from_inventory_and_config(inv, &cfg);
    assert_eq!(p2.selected_fps_value(), Some(144));
}

#[test]
fn picker_state_empty_inventory() {
    let cfg = Config::with_home("/home/test", None);
    let p = PickerState::from_inventory_and_config(vec![], &cfg);
    assert!(p.inventory.is_empty());
    assert!(p.selected_output_name().is_none());
    // Still has Auto | 60 | 30 (no native).
    assert!(!p.fps_entries.is_empty());
    assert_eq!(p.fps_entries[0].fps, None);
}

#[test]
fn rebuild_fps_keeps_auto_and_rate() {
    let inv = vec![
        out("HDMI-A-1", Some(2560), Some(1440), Some(144.0)),
        out("DP-1", Some(1920), Some(1080), Some(60.0)),
    ];
    let cfg = Config::with_home("/home/test", None);
    let mut p = PickerState::from_inventory_and_config(inv, &cfg);
    // Select Auto then switch monitor — keep Auto.
    p.selected_fps = 0;
    p.selected_monitor = 1;
    p.rebuild_fps_entries(None, true);
    assert_eq!(p.selected_fps_value(), None);
    assert!(p
        .fps_entries
        .iter()
        .any(|e| e.is_native && e.fps == Some(60)));

    // Select 30 on HDMI, switch to DP — keep 30 if offered.
    p.selected_monitor = 0;
    p.rebuild_fps_entries(Some(30), false);
    assert_eq!(p.selected_fps_value(), Some(30));

    // Prefer 120 (extra) survives rebuild onto other head.
    p.selected_monitor = 1;
    p.rebuild_fps_entries(Some(120), false);
    assert_eq!(p.selected_fps_value(), Some(120));
    assert!(p.fps_entries.iter().any(|e| e.fps == Some(120)));

    // Out-of-list rate is included as extra and kept (not silently dropped).
    p.rebuild_fps_entries(Some(999), false);
    assert_eq!(p.selected_fps_value(), Some(999));
    assert!(p.fps_entries.iter().any(|e| e.fps == Some(999)));

    // select_fps_index falls back to native when prefer is absent from list.
    let e = build_fps_entries(Some(60), None);
    assert_eq!(select_fps_index(&e, Some(999), true), 1);
}

#[test]
fn both_enablement_matrix_all_cells() {
    const FEW: &str = "2-monitor mode needs exactly two monitors (fewer detected).";
    const MANY: &str = "Only exactly two monitors supported for now (3+ not supported yet).";
    const FF: &str = "2-monitor mode needs ffmpeg on PATH (post-stop stitch).";
    const OK: &str =
        "Both screens → one video (Hyprland layout, black voids). Exactly 2 monitors only for now.";
    // Every cell of {0,1,2,3} × {ffmpeg T/F}.
    let cases: &[(usize, bool, bool, &str)] = &[
        (0, false, false, FEW),
        (0, true, false, FEW),
        (1, false, false, FEW),
        (1, true, false, FEW),
        (2, false, false, FF),
        (2, true, true, OK),
        (3, false, false, MANY),
        (3, true, false, MANY),
    ];
    for &(n, ff, want_en, want_tip) in cases {
        let g = both_enablement(n, ff);
        assert_eq!(g.enabled(), want_en, "enabled n={n} ff={ff}: got {:?}", g);
        assert_eq!(g.tooltip(), want_tip, "tooltip n={n} ff={ff}");
    }
}

#[test]
fn timer_freezes_while_stop_in_flight_or_not_recording() {
    assert!(timer_should_tick("Recording", false));
    assert!(!timer_should_tick("Recording", true));
    assert!(!timer_should_tick("Stopping", false));
    assert!(!timer_should_tick("Stopping", true));
    assert!(!timer_should_tick("Idle", false));
    assert!(!timer_should_tick("Starting", false));
}

#[test]
fn should_revalidate_both_on_idle_table() {
    let min = BOTH_REVALIDATE_IDLE_MIN_MS; // 10s
    let s = |secs: u64| secs * 1000;
    // (prev_state, elapsed_since_last, want)
    let cases: &[(Option<&str>, Option<u64>, bool)] = &[
        // First attach
        (None, Some(s(0)), true),
        (None, None, true),
        // Steady Idle polls — anti-regression (must not fire every 350ms)
        (Some("Idle"), Some(s(0)), false),
        (Some("Idle"), Some(s(9)), false),
        // Throttle fire at/after min_interval
        (Some("Idle"), Some(s(10)), true),
        (Some("Idle"), Some(s(11)), true),
        // Never stamped
        (Some("Idle"), None, true),
        // Busy → idle edge even with fresh stamp
        (Some("Recording"), Some(s(0)), true),
        (Some("Stopping"), Some(s(0)), true),
        (Some("Starting"), Some(s(0)), true),
        (Some("SelectingRegion"), Some(s(0)), true),
    ];
    for &(prev, elapsed, want) in cases {
        assert_eq!(
            should_revalidate_both_on_idle(prev, elapsed, min),
            want,
            "prev={prev:?} elapsed={elapsed:?}"
        );
    }
}

fn ipc_status(
    state: &str,
    capture_mode: Option<&str>,
    capture_output: Option<&str>,
) -> IpcStatus {
    IpcStatus {
        state: state.into(),
        output_path: None,
        pid: None,
        started_at_unix: None,
        audio: false,
        last_error: None,
        last_success_path: None,
        elapsed_ms: None,
        capture_output: capture_output.map(str::to_string),
        capture_mode: capture_mode.map(str::to_string),
    }
}

#[test]
fn format_capture_and_stopping_all_modes() {
    // One
    let one = ipc_status("Recording", Some("one"), Some("HDMI-A-1"));
    assert_eq!(
        format_capture_message(&one).as_deref(),
        Some("Output: HDMI-A-1")
    );
    assert_eq!(format_stopping_message(&one, false), "Stopping…");

    // Dual happy A+B pretty-print
    let both = ipc_status("Recording", Some("both"), Some("HDMI-A-1+DP-1"));
    assert_eq!(
        format_capture_message(&both).as_deref(),
        Some("2 monitors: HDMI-A-1 + DP-1")
    );
    assert_eq!(
        format_stopping_message(&both, false),
        "Stopping… Composing…"
    );
    // Mode branch is the contract — no '+' still dual:
    let both_one_name = ipc_status("Recording", Some("both"), Some("HDMI-A-1"));
    assert_eq!(
        format_capture_message(&both_one_name).as_deref(),
        Some("2 monitors: HDMI-A-1")
    );

    // Region: no capture_output → no capture label; stop is plain Stopping…
    let region = ipc_status("Recording", Some("region"), None);
    assert!(format_capture_message(&region).is_none());
    assert_eq!(format_stopping_message(&region, false), "Stopping…");

    // stopping_both flag wins even when capture_mode unset (start_in_flight stop).
    let idle = ipc_status("Idle", None, None);
    assert_eq!(format_stopping_message(&idle, true), "Stopping… Composing…");
    assert_eq!(format_stopping_message(&idle, false), "Stopping…");
}

#[test]
fn status_message_line_branch_order() {
    let both_rec = ipc_status("Recording", Some("both"), Some("HDMI-A-1+DP-1"));
    // (c) Recording + both → 2 monitors: A + B
    assert_eq!(
        status_message_line(None, &both_rec, false, false).as_deref(),
        Some("2 monitors: HDMI-A-1 + DP-1")
    );

    // (a) stop_in_flight + both + capture_output → Composing, not dual label
    assert_eq!(
        status_message_line(None, &both_rec, true, true).as_deref(),
        Some("Stopping… Composing…")
    );

    // (b) Stopping + one → Stopping…
    let one_stop = ipc_status("Stopping", Some("one"), Some("DP-1"));
    assert_eq!(
        status_message_line(None, &one_stop, false, false).as_deref(),
        Some("Stopping…")
    );

    // (d) explicit message wins over Stopping
    assert_eq!(
        status_message_line(Some("Saved — path ready: /x.mp4"), &one_stop, true, false)
            .as_deref(),
        Some("Saved — path ready: /x.mp4")
    );

    // Idle without stop / message → None (leave label alone)
    let idle = ipc_status("Idle", None, None);
    assert!(status_message_line(None, &idle, false, false).is_none());
}

#[test]
fn picking_a_monitor_keeps_the_rate() {
    let inv = vec![
        out("HDMI-A-1", Some(2560), Some(1440), Some(144.0)),
        out("DP-1", Some(1920), Some(1080), Some(60.0)),
    ];
    let mut p = PickerState::from_inventory_and_config(inv, &Config::with_home("/home/test", None));
    assert!(!p.monitor_picked(0), "already selected");
    assert!(!p.monitor_picked(9), "not there");
    assert!(p.monitor_picked(1));
    assert_eq!(p.selected_output_name(), Some("DP-1"));
    // 144 was selected and is kept as an extra rate.
    assert_eq!(p.selected_fps_value(), Some(144));
    assert!(p.fps_picked(0));
    assert!(p.monitor_picked(0));
    assert_eq!(p.selected_fps_value(), None, "Auto is kept");
    p.suppress_notify = true;
    assert!(!p.monitor_picked(1));
    assert!(!p.fps_picked(1));
}

#[test]
fn pickers_are_remembered() {
    let mut cfg = Config::with_home("/home/test", None);
    remember_pickers(&mut cfg, Some(" DP-1 "), Some(60));
    assert_eq!(cfg.fullscreen_output.as_deref(), Some("DP-1"));
    assert_eq!(cfg.one_fps, Some(60));
    remember_pickers(&mut cfg, None, None);
    assert_eq!(cfg.fullscreen_output.as_deref(), Some("DP-1"), "the pin stays");
    assert_eq!(cfg.one_fps, Some(0), "Auto is remembered as zero");
}

fn response(ok: bool, code: &str, message: &str, status: IpcStatus) -> IpcResponse {
    IpcResponse {
        ok,
        code: code.into(),
        message: message.into(),
        status,
        warnings: vec![],
        audio_list: None,
    }
}

#[test]
fn answers_become_lines() {
    let idle = || ipc_status("Idle", None, None);
    let start = |r: &IpcResponse| format_op_message(OpKind::Start, r);
    let stop = |r: &IpcResponse| format_op_message(OpKind::Stop, r);
    assert_eq!(
        start(&response(true, "slurp_cancel", "x", idle())),
        "Region selection canceled"
    );
    let one = ipc_status("Recording", Some("one"), Some("DP-1"));
    assert_eq!(start(&response(true, "ok", "x", one)), "Output: DP-1");
    let region = || ipc_status("Recording", Some("region"), None);
    assert_eq!(
        start(&response(true, "ok", "ReCoRdInG started", region())),
        "ReCoRdInG started"
    );
    assert_eq!(start(&response(true, "ok", "fine", region())), "Recording…");
    assert_eq!(start(&response(true, "ok", "fine", idle())), "fine");
    assert_eq!(start(&response(false, "busy", "", idle())), "Error (busy)");
    assert_eq!(stop(&response(true, "ok", "", idle())), "Stopped");
    let mut saved = response(true, "ok", "saved", idle());
    saved.status.last_success_path = Some("/v/a.mp4".into());
    assert_eq!(stop(&saved), "Saved — path ready: /v/a.mp4");
    saved.warnings.push("clipboard failed: x".into());
    assert_eq!(stop(&saved), "Saved: /v/a.mp4");
    assert_eq!(
        append_warnings("Saved: /v/a.mp4".into(), &saved.warnings),
        "Saved: /v/a.mp4  (warning: clipboard failed: x)"
    );
    assert_eq!(
        append_warnings(String::new(), &vec!["a".into(), "b".into()]),
        "warning: a; b"
    );
    assert_eq!(append_warnings("x".into(), &vec![]), "x");
}

#[test]
fn elapsed_time_prefers_the_clock() {
    let mut st = ipc_status("Recording", None, None);
    st.elapsed_ms = Some(61_000);
    assert_eq!(format_elapsed(&st, 0), "01:01");
    st.started_at_unix = Some(100);
    assert_eq!(format_elapsed(&st, 100_000 + 3_599_999), "59:59");
    assert_eq!(format_elapsed(&st, 99_000), "00:00");
    st.started_at_unix = Some(u64::MAX);
    assert_eq!(format_elapsed(&st, u64::MAX), "00:00");
    st.started_at_unix = Some(0);
    assert_eq!(format_elapsed(&st, 6_000_000), "100:00");
}

const AT: Moment = Moment {
    wall_ms: 0,
    steady_ms: 0,
};

#[test]
fn stop_overtakes_a_start_that_is_under_way() {
    let mut view = ViewState::new(0);
    let picker = PickerState::from_inventory_and_config(vec![], &Config::with_home("/h", None));
    assert_eq!(view.click(true), Click::Start);
    let cmd = view.start_command(false, true, AudioPlan::off(), &picker);
    let epoch = match cmd {
        WorkerCmd::StartBoth { epoch, .. } => epoch,
        other => panic!("{other:?}"),
    };
    view.start_sent(epoch);
    assert_eq!(view.click(true), Click::Stop { was_both: true });
    assert_eq!(view.stop_sent(true), "Stopping… Composing…");
    assert_eq!(view.click(true), Click::Nothing);
    let late = UiMsg::OpDone {
        kind: OpKind::Start,
        resp: response(true, "ok", "x", ipc_status("Recording", Some("both"), Some("A+B"))),
        epoch,
    };
    let effects = view.apply_msg(late, AT);
    assert!(!effects.present && effects.shown.is_none() && effects.message.is_none());
    assert!(view.start_in_flight && view.stop_in_flight);
    let done = UiMsg::OpDone {
        kind: OpKind::Stop,
        resp: response(true, "ok", "stopped", ipc_status("Idle", None, None)),
        epoch: 0,
    };
    let effects = view.apply_msg(done, AT);
    assert!(effects.present);
    let shown = effects.shown.unwrap();
    assert_eq!(shown.message.as_deref(), Some("stopped"));
    assert_eq!(shown.state_line, "State: Idle");
    assert_eq!(shown.timer.as_deref(), Some("00:00"));
    assert!(shown.idle);
    assert!(!view.start_in_flight && !view.stop_in_flight && !view.stopping_both);
}

#[test]
fn failures_end_what_was_asked_for() {
    let mut view = ViewState::new(0);
    view.start_sent(5);
    let stale = UiMsg::Error {
        source: ErrorSource::Start,
        message: "late".into(),
        epoch: 4,
    };
    let effects = view.apply_msg(stale, AT);
    assert_eq!(effects.message.as_deref(), Some("late"));
    assert!(view.start_in_flight);
    let poll = UiMsg::Error {
        source: ErrorSource::Status,
        message: "status: x".into(),
        epoch: 0,
    };
    assert!(!view.apply_msg(poll, AT).present);
    assert!(view.start_in_flight);
    let failed = UiMsg::Error {
        source: ErrorSource::Start,
        message: "start region: x".into(),
        epoch: 5,
    };
    assert!(view.apply_msg(failed, AT).present);
    assert!(!view.start_in_flight);
    view.start_sent(6);
    view.stop_sent(false);
    let stop = UiMsg::Error {
        source: ErrorSource::Stop,
        message: "stop: x".into(),
        epoch: 0,
    };
    view.apply_msg(stop, AT);
    assert!(view.is_quiet());
    assert!(view.apply_msg(UiMsg::SubscribeFailed("gone".into()), AT).close);
    assert_eq!(
        view.apply_msg(UiMsg::Info("hello".into()), AT).message.as_deref(),
        Some("hello")
    );
}

#[test]
fn a_recorder_that_died_is_told_of_once() {
    let mut view = ViewState::new(0);
    view.apply_msg(UiMsg::Status(ipc_status("Recording", Some("region"), None)), AT);
    assert_eq!(
        view.primary_button(),
        PrimaryButton { stop: true, sensitive: true }
    );
    let mut dead = ipc_status("Idle", None, None);
    dead.last_error = Some("encoder exploded".into());
    dead.last_success_path = Some("/v/old.mp4".into());
    let shown = view.apply_msg(UiMsg::Status(dead.clone()), AT).shown.unwrap();
    assert_eq!(shown.message.as_deref(), Some("encoder exploded"));
    assert_eq!(shown.path_line.as_deref(), Some("Last file: /v/old.mp4"));
    assert!(shown.revalidate, "busy to idle");
    let shown = view.apply_msg(UiMsg::Status(dead.clone()), AT).shown.unwrap();
    assert_eq!(shown.message, None);
    assert!(!shown.revalidate);
    let later = Moment { wall_ms: 0, steady_ms: 10_000 };
    let shown = view.apply_msg(UiMsg::Status(dead.clone()), later).shown.unwrap();
    assert!(shown.revalidate);
    // Attaching anew tells the error again.
    let shown = view.apply_msg(UiMsg::Subscribed(dead), later).shown.unwrap();
    assert_eq!(shown.message.as_deref(), Some("encoder exploded"));
    assert_eq!(
        view.primary_button(),
        PrimaryButton { stop: false, sensitive: true }
    );
}

#[test]
fn controls_follow_the_session() {
    let all = chrome(true, true, true, 1, true);
    assert!(all.modes && all.both && all.pickers && all.system_mode);
    assert!(all.system_detail && all.mic && all.mic_device);
    let none = chrome(false, true, true, 1, true);
    assert!(!none.modes && !none.both && !none.pickers && !none.system_mode);
    assert!(!none.system_detail && !none.mic && !none.mic_device);
    let some = chrome(true, false, false, 0, false);
    assert!(some.modes && !some.both && !some.pickers && !some.system_detail && !some.mic_device);
}

#[test]
fn starts_are_refused_with_a_reason() {
    let mut plan = AudioPlan::off();
    assert_eq!(refuse_plan(&plan), None);
    plan.system = SystemAudioMode::App;
    assert_eq!(
        refuse_plan(&plan),
        Some("No app selected — start playback or pick All PC sound")
    );
    let open = both_enablement(2, true);
    let shut = both_enablement(3, true);
    assert_eq!(
        refuse_start(false, false, false, open, false),
        Some("Select Region, One monitor, or 2 monitors")
    );
    assert_eq!(refuse_start(false, false, true, shut, false), Some(shut.tooltip()));
    assert_eq!(refuse_start(false, false, true, open, true), None);
    assert_eq!(
        refuse_start(false, true, false, shut, true),
        Some("No outputs discovered (hyprctl monitors / wf-recorder -L)")
    );
    assert_eq!(refuse_start(true, false, false, shut, true), None);
    let inv = vec![out("DP-1", Some(1), Some(1), None)];
    let picker = PickerState::from_inventory_and_config(inv, &Config::with_home("/h", None));
    assert_eq!(starting_message(true, false, &picker), "Select a region…");
    assert_eq!(starting_message(false, true, &picker), "Starting… 2 monitors");
    assert_eq!(starting_message(false, false, &picker), "Starting… Output: DP-1");
    let failed = response(false, "io_error", "no pactl", ipc_status("Idle", None, None));
    assert_eq!(
        audio_list_message(&failed).as_deref(),
        Some("Audio devices: no pactl")
    );
}

#[test]
fn stop_clears_the_starts_that_waited_with_it() {
    let mut batch = Batch::new();
    batch.push(WorkerCmd::PollStatus);
    batch.push(WorkerCmd::StartRegion { plan: AudioPlan::off(), epoch: 2 });
    batch.push(WorkerCmd::PollStatus);
    batch.push(WorkerCmd::StartFullscreen {
        plan: AudioPlan::system_all(),
        epoch: 3,
        output: Some("DP-1".into()),
        fps: Some(30),
    });
    let plan = batch.plan();
    assert!(plan.poll && !plan.stop && !plan.shutdown && !plan.list_audio);
    assert_eq!(plan.starts.len(), 2);
    assert_eq!(plan.starts[0].label, "start region");
    assert_eq!(plan.starts[0].request.cmd, IpcCommand::StartRegion);
    assert_eq!(plan.starts[1].label, "start one monitor");
    assert_eq!(plan.starts[1].request.output.as_deref(), Some("DP-1"));
    assert_eq!(plan.starts[1].request.fps, Some(30));
    assert_eq!(plan.starts[1].epoch, 3);

    let mut batch = Batch::new();
    batch.push(WorkerCmd::StartBoth { plan: AudioPlan::off(), epoch: 2 });
    batch.push(WorkerCmd::Stop);
    batch.push(WorkerCmd::ListAudio);
    batch.push(WorkerCmd::ShutdownWorker);
    let plan = batch.plan();
    assert!(plan.stop && plan.list_audio && plan.shutdown);
    assert!(plan.starts.is_empty());
}

fn io_error(kind: IoKind) -> ClientError {
    ClientError::Io(IoFailure { kind, message: "x".into() })
}

#[test]
fn a_lost_session_is_revived_after_a_streak() {
    let mut link = Link::new();
    let gone = ClientError::Connect(IoFailure { kind: IoKind::Other, message: "refused".into() });
    for _ in 1..CONNECT_FAIL_LIMIT {
        assert_eq!(link.poll_failed(&gone), PollFailure::Quiet);
    }
    assert_eq!(link.poll_failed(&gone), PollFailure::Revive);
    assert_eq!(link.poll_failed(&io_error(IoKind::BrokenPipe)), PollFailure::Quiet);
    link.answered();
    assert_eq!(link.poll_failed(&io_error(IoKind::TimedOut)), PollFailure::Quiet);
    assert_eq!(
        link.poll_failed(&ClientError::Protocol("odd".into())),
        PollFailure::Report("status: protocol error: odd".into())
    );
    assert_eq!(subscribe_pause(0), 40);
    assert_eq!(subscribe_pause(7), 320);
    assert_eq!(
        revive_failed(&gone, "no"),
        "lost connection to session server (connect failed: refused); revive failed: no"
    );
    let refused = response(false, "busy", "no", ipc_status("Idle", None, None));
    assert_eq!(
        subscribe_refused(&refused).as_deref(),
        Some("subscribe rejected: no (busy)")
    );
    let taken = response(true, "ok", "subscribed", ipc_status("Idle", None, None));
    assert_eq!(subscribe_refused(&taken), None);
}

#[test]
fn answers_are_told_as_what_was_asked_for() {
    let refused = || ClientError::Connect(IoFailure { kind: IoKind::Other, message: "refused".into() });
    let answer = || response(true, "ok", "done", ipc_status("Idle", None, None));
    let mut link = Link::new();
    for _ in 1..CONNECT_FAIL_LIMIT {
        assert_eq!(link.poll_outcome(Err(refused())), PollNext::Quiet);
    }
    // A stop that fails leaves the streak, one that is answered ends it.
    assert_eq!(
        link.stop_outcome(Err(refused())),
        UiMsg::Error {
            source: ErrorSource::Stop,
            message: "stop: connect failed: refused".into(),
            epoch: 0,
        }
    );
    assert_eq!(link.poll_outcome(Err(refused())), PollNext::Revive(refused()));
    for _ in 1..CONNECT_FAIL_LIMIT {
        assert_eq!(link.poll_outcome(Err(refused())), PollNext::Quiet);
    }
    assert_eq!(
        link.stop_outcome(Ok(answer())),
        UiMsg::OpDone { kind: OpKind::Stop, resp: answer(), epoch: 0 }
    );
    assert_eq!(link.poll_outcome(Err(refused())), PollNext::Quiet);
    assert_eq!(
        link.poll_outcome(Ok(answer())),
        PollNext::Tell(UiMsg::Status(ipc_status("Idle", None, None)))
    );
    let told = |message: &str| UiMsg::Error {
        source: ErrorSource::Status,
        message: message.into(),
        epoch: 0,
    };
    assert_eq!(
        link.poll_outcome(Err(ClientError::Protocol("odd".into()))),
        PollNext::Tell(told("status: protocol error: odd"))
    );
    assert_eq!(link.audio_outcome(Ok(answer())), Ok(answer()));
    assert_eq!(
        link.audio_outcome(Err(io_error(IoKind::TimedOut))),
        Err(told("list audio: io error: x"))
    );
}

#[test]
fn starts_are_told_with_their_number() {
    let mut batch = Batch::new();
    batch.push(WorkerCmd::StartBoth { plan: AudioPlan::off(), epoch: 7 });
    let plan = batch.plan();
    let answer = || response(true, "ok", "done", ipc_status("Recording", Some("both"), None));
    assert_eq!(
        start_outcome(&plan.starts[0], Ok(answer())),
        UiMsg::OpDone { kind: OpKind::Start, resp: answer(), epoch: 7 }
    );
    assert_eq!(
        start_outcome(&plan.starts[0], Err(io_error(IoKind::BrokenPipe))),
        UiMsg::Error {
            source: ErrorSource::Start,
            message: "start both: io error: x".into(),
            epoch: 7,
        }
    );
}

#[test]
fn attaching_and_reviving_are_told() {
    let status = || ipc_status("Idle", None, None);
    assert_eq!(attach_outcome(Ok(status())), UiMsg::Subscribed(status()));
    assert_eq!(
        attach_outcome(Err("gone".into())),
        UiMsg::SubscribeFailed("could not attach GUI view: gone".into())
    );
    let lost = io_error(IoKind::BrokenPipe);
    assert_eq!(
        revival_outcome(&lost, Revival::Attached(status())),
        (
            vec![
                UiMsg::Subscribed(status()),
                UiMsg::Info("reconnected to session server".into())
            ],
            true
        )
    );
    assert_eq!(
        revival_outcome(&lost, Revival::NotStarted("no".into())),
        (
            vec![UiMsg::Error {
                source: ErrorSource::Status,
                message: "lost connection to session server (io error: x); revive failed: no".into(),
                epoch: 0,
            }],
            true
        )
    );
    assert_eq!(
        revival_outcome(&lost, Revival::NotAttached("no".into())),
        (
            vec![UiMsg::SubscribeFailed(
                "lost session and could not re-attach: no".into()
            )],
            false
        )
    );
}

fn sound_inventory() -> AudioInventory {
    AudioInventory {
        sinks: vec![
            AudioSinkInfo { name: "spk".into(), description: "Speakers".into(), is_default: true },
            AudioSinkInfo { name: "hdmi".into(), description: "TV".into(), is_default: false },
        ],
        sources: vec![
            AudioSourceInfo {
                name: "spk.monitor".into(),
                description: "Monitor".into(),
                is_default: false,
                is_monitor: true,
            },
            AudioSourceInfo {
                name: "mic".into(),
                description: "Mic".into(),
                is_default: true,
                is_monitor: false,
            },
        ],
        apps: vec![
            AudioAppInfo { index: 1, name: "Firefox".into(), media_name: None, sink: "spk".into() },
            AudioAppInfo {
                index: 2,
                name: "Spotify".into(),
                media_name: Some("Song".into()),
                sink: "spk".into(),
            },
        ],
    }
}

#[test]
fn audio_controls_offer_what_is_there() {
    let inv = sound_inventory();
    assert_eq!(
        detail_labels(SystemAudioMode::All, &inv),
        vec!["Default output", "Speakers ★", "TV"]
    );
    assert_eq!(
        detail_labels(SystemAudioMode::App, &inv),
        vec!["Firefox", "Spotify — Song"]
    );
    assert_eq!(detail_labels(SystemAudioMode::Off, &inv), vec!["—"]);
    assert_eq!(mic_labels(&inv), vec!["Default mic", "Mic ★"]);
    let none = AudioInventory::default();
    assert_eq!(detail_labels(SystemAudioMode::App, &none), vec!["(no apps playing)"]);
    assert_eq!(detail_labels(SystemAudioMode::All, &none), vec!["Default output"]);
    assert_eq!(mic_labels(&none), vec!["Default mic"]);
    for mode in [SystemAudioMode::Off, SystemAudioMode::All, SystemAudioMode::App] {
        assert_eq!(system_mode_at(system_mode_index(mode)), mode);
    }
}

#[test]
fn audio_selection_and_plan_agree() {
    let inv = sound_inventory();
    let plan = plan_from_selection(SystemAudioMode::All, 2, true, 1, &inv);
    assert_eq!(plan.sink.as_deref(), Some("hdmi"));
    assert_eq!(plan.mic_device.as_deref(), Some("mic"));
    assert_eq!(detail_selection(SystemAudioMode::All, &inv, &plan), 2);
    assert_eq!(mic_selection(&inv, &plan), 1);
    let plan = plan_from_selection(SystemAudioMode::All, 0, true, 0, &inv);
    assert_eq!((plan.sink.clone(), plan.mic_device.clone()), (None, None));
    assert_eq!(detail_selection(SystemAudioMode::All, &inv, &plan), 0);
    let plan = plan_from_selection(SystemAudioMode::App, 1, false, 1, &inv);
    assert_eq!(plan.app.as_deref(), Some("Spotify"));
    assert_eq!(plan.mic_device, None);
    assert_eq!(detail_selection(SystemAudioMode::App, &inv, &plan), 1);
    let gone = plan_from_selection(SystemAudioMode::App, 9, false, 0, &inv);
    assert_eq!(gone.app, None);
    let off = plan_from_selection(SystemAudioMode::Off, 1, false, 0, &inv);
    assert!(!off.enabled());
}

#[test]
fn remembered_choice_is_opened_again() {
    let inv = vec![
        OutputInfo::names_only("A"),
        OutputInfo {
            refresh: Some("144.0".into()),
            ..OutputInfo::names_only("B")
        },
    ];
    for fps in [None, Some(30), Some(75), Some(144)] {
        let mut cfg = Config::with_home("/home/test", None);
        remember_pickers(&mut cfg, Some("B"), fps);
        let p = PickerState::from_inventory_and_config(inv.clone(), &cfg);
        assert_eq!(p.selected_output_name(), Some("B"));
        assert_eq!(p.selected_fps_value(), fps);
        // What is picked is recorded, whatever the session is configured with.
        for configured in [None, Some(0), Some(24)] {
            let sent = ipc_fps_for_start(p.selected_fps_value());
            assert_eq!(resolve_one_fps(sent, configured), fps);
        }
    }
}
