use hyprcap::audio::{AudioPlan, SystemAudioMode};
use hyprcap::calendar::{civil_utc, format_timestamp};
use hyprcap::cli::is_server_mode;
use hyprcap::config::Config;
use hyprcap::document::TomlValue;
use hyprcap::ports::{
    absolutize_path, default_config_path, default_runtime_dir, default_videos_dir,
    truncate_stderr_tail, Paths, PortError, Timestamp,
};

#[test]
fn scaffold_smoke() {
    assert!(true);
}

#[test]
fn server_mode_only_argv1() {
    let args = vec!["hyprcap".into(), "--server".into()];
    assert!(is_server_mode(&args));
    let args = vec!["hyprcap".into(), "status".into(), "--server".into()];
    assert!(!is_server_mode(&args));
    let args = vec!["hyprcap".into(), "status".into()];
    assert!(!is_server_mode(&args));
}

#[test]
fn u17_config_defaults() {
    let cfg = Config::with_home("/home/test", None);
    assert_eq!(cfg.output_dir, "/home/test/Videos");
    assert!(!cfg.audio_default);
    assert!(cfg.copy_path);
    assert!(cfg.notify);
    assert!(cfg.notify_on_start_cli);
    assert_eq!(cfg.stop_timeout_ms, 5000);
    assert_eq!(cfg.stop_term_timeout_ms, 2000);
}

#[test]
fn u17_config_overrides_from_toml() {
    let defaults = Config::with_home("/home/test", None);
    let toml = r#"
output_dir = "/tmp/clips"
audio_default = true
copy_path = false
notify = false
notify_on_start_cli = false
stop_timeout_ms = 1000
stop_term_timeout_ms = 500
"#;
    let cfg = Config::parse_toml(toml, defaults, "/work").unwrap();
    assert_eq!(cfg.output_dir, "/tmp/clips");
    assert!(cfg.audio_default);
    assert!(!cfg.copy_path);
    assert!(!cfg.notify);
    assert!(!cfg.notify_on_start_cli);
    assert_eq!(cfg.stop_timeout_ms, 1000);
    assert_eq!(cfg.stop_term_timeout_ms, 500);
}

#[test]
fn u17_partial_toml_keeps_defaults() {
    let defaults = Config::with_home("/home/test", None);
    let cfg = Config::parse_toml("audio_default = true\n", defaults.clone(), "/work").unwrap();
    assert!(cfg.audio_default);
    assert_eq!(cfg.output_dir, defaults.output_dir);
    assert_eq!(cfg.stop_timeout_ms, 5000);
}

#[test]
fn u17_xdg_user_dir_videos() {
    let cfg = Config::with_home("/home/test", Some("/mnt/media/Videos"));
    assert_eq!(cfg.output_dir, "/mnt/media/Videos");
}

#[test]
fn relative_output_dir_is_absolutized() {
    let defaults = Config::with_home("/home/test", None);
    let cfg = Config::parse_toml("output_dir = \"clips\"\n", defaults, "/work").unwrap();
    assert!(cfg.output_dir.starts_with('/'), "{:?}", cfg.output_dir);
    assert!(cfg.output_dir.ends_with("/clips"));
}

#[test]
fn unknown_keys_are_ignored_and_wrong_types_refused() {
    let d = Config::with_home("/home/test", None);
    let cfg = Config::parse_toml("colour = \"red\"\none_fps = 144\n", d.clone(), "/work").unwrap();
    assert_eq!(cfg.one_fps, Some(144));
    for text in [
        "notify = \"yes\"\n",
        "one_fps = -1\n",
        "one_fps = 4294967296\n",
        "stop_timeout_ms = 1.5\n",
        "output_dir = 7\n",
        "system_audio = \"loud\"\n",
        "not toml",
    ] {
        let e = Config::parse_toml(text, d.clone(), "/work").unwrap_err();
        match &e {
            PortError::Io(m) => assert!(m.starts_with("parse config: "), "{text}: {m}"),
            other => panic!("{text}: {other:?}"),
        }
    }
}

#[test]
fn entries_of_a_document_are_settings() {
    let d = Config::with_home("/home/test", None);
    let doc = vec![
        ("notify".to_string(), TomlValue::Boolean(false)),
        ("output_dir".to_string(), TomlValue::Text("clips".into())),
        ("stop_timeout_ms".to_string(), TomlValue::Integer(7)),
        ("mic_device".to_string(), TomlValue::Text("mic1".into())),
    ];
    let cfg = Config::from_document(Ok(doc), d.clone(), "/work").unwrap();
    assert!(!cfg.notify);
    assert_eq!(cfg.output_dir, "/work/clips");
    assert_eq!(cfg.stop_timeout(), 7);
    assert_eq!(cfg.mic_device.as_deref(), Some("mic1"));
    assert!(Config::from_document(Err("bad".into()), d.clone(), "/work").is_err());
    let same = Config::from_document(Ok(vec![]), d.clone(), "/work").unwrap();
    assert_eq!(same, d);
}

#[test]
fn config_files_that_are_missing_or_unreadable() {
    let d = Config::with_home("/home/test", None);
    let cfg = Config::load_from_path("/c.toml", None, d.clone(), "/work").unwrap();
    assert_eq!(cfg, d);
    let e = Config::load_from_path("/c.toml", Some(Err("denied".into())), d, "/work").unwrap_err();
    assert_eq!(e, PortError::Io("read config /c.toml: denied".into()));
}

#[test]
fn sticky_audio_plan_is_in_force() {
    let mut cfg = Config::with_home("/home/test", None);
    assert!(!cfg.audio_plan().enabled());
    cfg.audio_default = true;
    assert_eq!(cfg.audio_plan(), AudioPlan::system_all());
    let plan = AudioPlan {
        system: SystemAudioMode::App,
        app: Some("Spotify".into()),
        mic: true,
        ..Default::default()
    };
    cfg.apply_audio_plan(&plan);
    assert_eq!(cfg.audio_plan(), plan);
}

struct FixedPaths;

impl Paths for FixedPaths {
    fn config_path(&self) -> String {
        "/cfg/config.toml".into()
    }
    fn output_dir(&self) -> String {
        "Clips".into()
    }
    fn runtime_dir(&self) -> String {
        "/run".into()
    }
    fn home_dir(&self) -> String {
        "/home/test".into()
    }
}

#[test]
fn config_is_loaded_over_the_defaults_of_the_paths() {
    let cfg = Config::load(&FixedPaths, Some(Ok("copy_path = false\n".into())), "/work").unwrap();
    assert_eq!(cfg.output_dir, "/work/Clips");
    assert!(!cfg.copy_path);
    let cfg = Config::load(&FixedPaths, None, "/work").unwrap();
    assert_eq!(cfg, Config::with_defaults(&FixedPaths, "/work"));
    let e = Config::load(&FixedPaths, Some(Err("x".into())), "/work").unwrap_err();
    assert_eq!(e.to_text(), "io error: read config /cfg/config.toml: x");
}

#[test]
fn default_paths_follow_the_environment() {
    assert_eq!(default_config_path(Some("/x"), "/home/t"), "/x/hyprcap/config.toml");
    assert_eq!(
        default_config_path(None, "/home/t"),
        "/home/t/.config/hyprcap/config.toml"
    );
    assert_eq!(default_videos_dir("/home/t", None), "/home/t/Videos");
    assert_eq!(default_runtime_dir(Some("/run/user/7"), 7), "/run/user/7");
    assert_eq!(absolutize_path("a/b", "/cwd"), "/cwd/a/b");
    assert_eq!(absolutize_path("/a/b", "/cwd"), "/a/b");
}

#[test]
fn long_stderr_is_cut_at_a_character() {
    assert_eq!(truncate_stderr_tail("short"), "short");
    let long = "é".repeat(3000);
    let tail = truncate_stderr_tail(&long);
    assert!(tail.len() <= 4096);
    assert!(long.ends_with(&tail));
    assert!(tail.len() >= 4095);
}

#[test]
fn stamps_are_utc() {
    assert_eq!(civil_utc(0), (1970, 1, 1, 0, 0, 0));
    assert_eq!(civil_utc(951_782_400), (2000, 2, 29, 0, 0, 0));
    assert_eq!(civil_utc(4_102_444_799), (2099, 12, 31, 23, 59, 59));
    let at = Timestamp { secs: 1_705_322_245, nanos: 0 };
    assert_eq!(format_timestamp(at).unwrap(), "20240115-123725");
    let early = Timestamp { secs: -1, nanos: 0 };
    assert!(format_timestamp(early).is_err());
}
