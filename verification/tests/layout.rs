use hyprcap::calendar::format_timestamp;
use hyprcap::dual::{
    build_both_argv, build_compose_argv, build_compose_filter, choose_layout, not_two_message,
    unique_both_files, BothFiles,
};
use hyprcap::outputs::OutputInfo;
use hyprcap::path::{is_absolute, join_path};
use hyprcap::ports::{ExitStatus, PortError, Timestamp};

fn monitor(name: &str, x: i32, y: i32, width: i32, height: i32) -> OutputInfo {
    OutputInfo {
        name: name.into(),
        x: Some(x),
        y: Some(y),
        width: Some(width),
        height: Some(height),
        refresh: None,
    }
}

fn at(secs: i64) -> Timestamp {
    Timestamp { secs, nanos: 0 }
}

#[test]
fn primary_monitor_is_left_or_above() {
    let left = monitor("L", -1920, 500, 1920, 1080);
    let right = monitor("R", 0, 0, 2560, 1440);
    for pair in [vec![left.clone(), right.clone()], vec![right, left]] {
        let l = choose_layout(&pair).unwrap();
        assert_eq!(l.primary.name, "L");
        assert_eq!(l.secondary.name, "R");
    }
    let below = monitor("B", 0, 1080, 1920, 1080);
    let above = monitor("A", 0, 0, 1920, 1080);
    let l = choose_layout(&vec![below, above]).unwrap();
    assert_eq!(l.primary.name, "A");
    // In one place, the first of the list.
    let l = choose_layout(&vec![monitor("Y", 0, 0, 10, 10), monitor("X", 0, 0, 10, 10)]).unwrap();
    assert_eq!(l.primary.name, "Y");
}

#[test]
fn layout_needs_positions() {
    let known = monitor("A", 0, 0, 10, 10);
    assert!(choose_layout(&vec![known.clone(), OutputInfo::names_only("B")]).is_none());
    assert!(choose_layout(&vec![monitor("B", 0, 0, 0, 10), known.clone()]).is_none());
    assert_eq!(
        not_two_message(&vec![]),
        "both requires exactly two monitors (known: none)"
    );
    assert_eq!(
        not_two_message(&vec![known, OutputInfo::names_only("B"), OutputInfo::names_only("C")]),
        "both requires exactly two monitors (known: A, B, C)"
    );
}

#[test]
fn canvas_holds_monitors_at_negative_places() {
    let l = choose_layout(&vec![
        monitor("R", 0, 0, 2560, 1440),
        monitor("L", -1920, 500, 1920, 1080),
    ])
    .unwrap();
    assert_eq!(
        build_compose_filter(&l),
        "[0:v]scale=1920:1080,pad=4480:1580:0:500:black[base];[1:v]scale=2560:1440[over];\
         [base][over]overlay=1920:0:eof_action=pass[v]"
    );
    let argv = build_compose_argv(&l, true, "a.mkv", "b.mkv", "out.mp4");
    assert_eq!(argv[..2], ["ffmpeg", "-nostdin"]);
    assert_eq!(argv[argv.len() - 5..], ["-map", "[v]", "-map", "0:a", "out.mp4"]);
    let silent = build_compose_argv(&l, false, "a.mkv", "b.mkv", "out.mp4");
    assert!(!silent.contains(&"0:a".to_string()));
}

#[test]
fn both_recorders_take_sixty_frames() {
    assert_eq!(
        build_both_argv("DP-1", false, "x.mkv"),
        ["wf-recorder", "-o", "DP-1", "-r", "60", "-D", "-f", "x.mkv"]
    );
    assert_eq!(
        build_both_argv("DP-1", true, "x.mkv"),
        ["wf-recorder", "-o", "DP-1", "-r", "60", "-D", "-a", "-f", "x.mkv"]
    );
}

#[test]
fn names_of_both_are_free() {
    let now = at(1_705_322_245);
    let first = unique_both_files("/v", now, &vec![]).unwrap();
    assert_eq!(
        first,
        BothFiles {
            a: "/v/.record-ui-both-20240115-123725-A.mkv".into(),
            b: "/v/.record-ui-both-20240115-123725-B.mkv".into(),
            path: "/v/rec-20240115-123725.mp4".into(),
        }
    );
    // One name that is taken spoils the try.
    for taken in [&first.a, &first.b, &first.path] {
        let next = unique_both_files("/v", now, &vec![taken.clone()]).unwrap();
        assert_eq!(next.path, "/v/rec-20240115-123725-1.mp4");
        assert_eq!(next.a, "/v/.record-ui-both-20240115-123725-1-A.mkv");
        assert_eq!(next.b, "/v/.record-ui-both-20240115-123725-1-B.mkv");
    }
    match unique_both_files("/v", at(-5), &vec![]).unwrap_err() {
        PortError::Other(m) => assert!(m.starts_with("clock before epoch"), "{m}"),
        other => panic!("{other:?}"),
    }
}

#[test]
fn stamps_tell_seconds_apart() {
    let a = format_timestamp(at(1_705_322_245)).unwrap();
    let b = format_timestamp(at(1_705_322_246)).unwrap();
    assert_ne!(a, b);
    assert_eq!(b, "20240115-123726");
}

#[test]
fn paths_are_joined() {
    assert_eq!(join_path("/a", "b"), "/a/b");
    assert_eq!(join_path("/a/", "b"), "/a/b");
    assert_eq!(join_path("/a", "/b"), "/b");
    assert_eq!(join_path("", "b"), "b");
    assert!(is_absolute("/a") && !is_absolute("a/b"));
}

#[test]
fn exits_and_errors_are_told() {
    assert!(ExitStatus::Code(0).success());
    assert!(!ExitStatus::Code(1).success() && !ExitStatus::Signal(2).success());
    assert_eq!(ExitStatus::Code(3).code(), Some(3));
    assert_eq!(ExitStatus::Signal(9).code(), None);
    let errors = [
        (PortError::Spawn("x".into()), "spawn failed: x"),
        (PortError::Signal("x".into()), "signal failed: x"),
        (PortError::Wait("x".into()), "wait failed: x"),
        (PortError::Io("x".into()), "io error: x"),
        (PortError::NotFound("x".into()), "not found: x"),
        (PortError::Other("x".into()), "x"),
    ];
    for (e, text) in errors {
        assert_eq!(e.to_text(), text);
    }
}
