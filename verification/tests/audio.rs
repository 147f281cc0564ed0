use std::collections::HashMap;

use hyprcap::audio::{
    audio_argv_flag, parse_short_sinks, parse_sink_inputs, plan_capture, sink_monitor_name,
    AudioAppInfo, AudioError, AudioInventory, AudioPlan, AudioSinkInfo, AudioSourceInfo,
    CaptureRecipe, SystemAudioMode,
};
use hyprcap::config::Config;
use hyprcap::pactl::{
    default_device, inventory_from_listing, load_module_args, loaded_module, moved_sink_input,
    pactl_output, unloaded_module, Listing, PactlRun,
};
use hyprcap::pulse::{setup_session_with, teardown_session_with, Pulse, PulseCtl};

#[test]
fn sink_monitor_suffix() {
    assert_eq!(
        sink_monitor_name("alsa_output.usb.analog-stereo"),
        "alsa_output.usb.analog-stereo.monitor"
    );
}

#[test]
fn parse_short_sinks_basic() {
    let t = "54\talsa_output.pci.hdmi-stereo\tPipeWire\ts32le 2ch 48000Hz\tSUSPENDED\n";
    let v = parse_short_sinks(t);
    assert_eq!(v.len(), 1);
    assert_eq!(v[0].1, "alsa_output.pci.hdmi-stereo");
}

#[test]
fn parse_sink_inputs_spotify() {
    let t = r#"
Sink Input #2862
        Sink: 2585
        Properties:
                media.name = "Spotify"
                application.name = "Spotify"
"#;
    let apps = parse_sink_inputs(t);
    assert_eq!(apps.len(), 1);
    assert_eq!(apps[0].index, 2862);
    assert_eq!(apps[0].name, "Spotify");
}

#[test]
fn plan_all_direct() {
    let plan = AudioPlan::system_all();
    let inv = AudioInventory {
        sinks: vec![AudioSinkInfo {
            name: "spk".into(),
            description: "Speakers".into(),
            is_default: true,
        }],
        ..Default::default()
    };
    let r = plan_capture(&plan, &inv, "spk", "mic").unwrap();
    assert_eq!(r, CaptureRecipe::Direct("spk.monitor".into()));
}

#[test]
fn plan_mic_only_direct() {
    let plan = AudioPlan {
        mic: true,
        mic_device: Some("mic1".into()),
        ..Default::default()
    };
    let inv = AudioInventory::default();
    let r = plan_capture(&plan, &inv, "spk", "mic1").unwrap();
    assert_eq!(r, CaptureRecipe::Direct("mic1".into()));
}

#[test]
fn plan_all_plus_mic_mix() {
    let plan = AudioPlan {
        system: SystemAudioMode::All,
        mic: true,
        mic_device: Some("mic1".into()),
        ..Default::default()
    };
    let inv = AudioInventory {
        sinks: vec![AudioSinkInfo {
            name: "spk".into(),
            description: "S".into(),
            is_default: true,
        }],
        ..Default::default()
    };
    match plan_capture(&plan, &inv, "spk", "mic1").unwrap() {
        CaptureRecipe::Mix { feed_sources, apps, .. } => {
            assert_eq!(
                feed_sources,
                vec!["spk.monitor".to_string(), "mic1".to_string()]
            );
            assert!(apps.is_empty());
        }
        other => panic!("expected mix, got {other:?}"),
    }
}

#[test]
fn plan_app_mix() {
    let plan = AudioPlan {
        system: SystemAudioMode::App,
        app: Some("Spotify".into()),
        ..Default::default()
    };
    let inv = AudioInventory {
        apps: vec![AudioAppInfo {
            index: 9,
            name: "Spotify".into(),
            media_name: None,
            sink: "spk".into(),
        }],
        ..Default::default()
    };
    match plan_capture(&plan, &inv, "spk", "mic").unwrap() {
        CaptureRecipe::Mix {
            feed_sources,
            apps,
            hear_sink,
        } => {
            assert!(feed_sources.is_empty());
            assert_eq!(apps.len(), 1);
            assert_eq!(apps[0].index, 9);
            assert_eq!(hear_sink.as_deref(), Some("spk"));
        }
        other => panic!("expected mix, got {other:?}"),
    }
}

#[test]
fn audio_argv_flag_format() {
    assert_eq!(
        audio_argv_flag(Some("spk.monitor")).as_deref(),
        Some("-aspk.monitor")
    );
    assert_eq!(audio_argv_flag(Some("")), None);
    assert_eq!(audio_argv_flag(None), None);
}

#[test]
fn resolve_legacy_and_plan() {
    let cfg = Config {
        audio_default: false,
        ..Config::default_for_home(None)
    };
    assert!(!AudioPlan::resolve(None, None, &cfg).enabled());
    assert_eq!(
        AudioPlan::resolve(None, Some(true), &cfg).system,
        SystemAudioMode::All
    );
    let p = AudioPlan {
        system: SystemAudioMode::Off,
        mic: true,
        ..Default::default()
    };
    assert!(AudioPlan::resolve(Some(p), Some(true), &cfg).mic);
}

#[derive(Default)]
struct FakePulse {
    default_sink: String,
    default_source: String,
    inv: AudioInventory,
    modules: HashMap<u32, String>,
    next_id: u32,
    moves: Vec<(u32, String)>,
    fail_load: bool,
    fail_after: Option<u32>,
}

impl PulseCtl for FakePulse {
    fn command_exists(&self, binary: &str) -> bool {
        binary == "pactl"
    }
    fn default_sink(&mut self) -> Result<String, AudioError> {
        Ok(self.default_sink.clone())
    }
    fn default_source(&mut self) -> Result<String, AudioError> {
        Ok(self.default_source.clone())
    }
    fn list_inventory(&mut self) -> Result<AudioInventory, AudioError> {
        Ok(self.inv.clone())
    }
    fn load_module(&mut self, name: &str, args: &str) -> Result<u32, AudioError> {
        if self.fail_load || self.fail_after == Some(self.next_id) {
            return Err(AudioError::Message("fail".into()));
        }
        let id = self.next_id;
        self.next_id += 1;
        self.modules.insert(id, format!("{name} {args}"));
        Ok(id)
    }
    fn unload_module(&mut self, id: u32) -> Result<(), AudioError> {
        self.modules.remove(&id);
        Ok(())
    }
    fn move_sink_input(&mut self, index: u32, sink: &str) -> Result<(), AudioError> {
        self.moves.push((index, sink.to_string()));
        Ok(())
    }
}

#[test]
fn setup_direct_no_modules() {
    let mut pulse = Pulse::new(FakePulse {
        default_sink: "spk".into(),
        default_source: "mic".into(),
        inv: AudioInventory {
            sinks: vec![AudioSinkInfo {
                name: "spk".into(),
                description: "S".into(),
                is_default: true,
            }],
            ..Default::default()
        },
        next_id: 1,
        ..Default::default()
    });
    let sess = setup_session_with(&AudioPlan::system_all(), &mut pulse, 7)
        .unwrap()
        .unwrap();
    assert_eq!(sess.capture_source, "spk.monitor");
    assert!(sess.module_ids.is_empty());
}

#[test]
fn setup_mix_loads_null_and_loopbacks() {
    let mut pulse = Pulse::new(FakePulse {
        default_sink: "spk".into(),
        default_source: "mic".into(),
        inv: AudioInventory {
            sinks: vec![AudioSinkInfo {
                name: "spk".into(),
                description: "S".into(),
                is_default: true,
            }],
            sources: vec![AudioSourceInfo {
                name: "mic".into(),
                description: "M".into(),
                is_default: true,
                is_monitor: false,
            }],
            ..Default::default()
        },
        next_id: 10,
        ..Default::default()
    });
    let plan = AudioPlan {
        system: SystemAudioMode::All,
        mic: true,
        ..Default::default()
    };
    let sess = setup_session_with(&plan, &mut pulse, 7).unwrap().unwrap();
    assert!(sess.capture_source.ends_with(".monitor"));
    assert!(sess.module_ids.len() >= 3); // null + 2 loopbacks
    teardown_session_with(&sess, &mut pulse);
    assert!(pulse.port().modules.is_empty());
}

#[test]
fn setup_app_moves_and_restores() {
    let mut pulse = Pulse::new(FakePulse {
        default_sink: "spk".into(),
        default_source: "mic".into(),
        inv: AudioInventory {
            apps: vec![AudioAppInfo {
                index: 42,
                name: "Spotify".into(),
                media_name: None,
                sink: "spk".into(),
            }],
            sinks: vec![AudioSinkInfo {
                name: "spk".into(),
                description: "S".into(),
                is_default: true,
            }],
            ..Default::default()
        },
        next_id: 5,
        ..Default::default()
    });
    let plan = AudioPlan {
        system: SystemAudioMode::App,
        app: Some("Spotify".into()),
        ..Default::default()
    };
    let sess = setup_session_with(&plan, &mut pulse, 7).unwrap().unwrap();
    assert!(!sess.moved_apps.is_empty());
    assert!(pulse
        .port()
        .moves
        .iter()
        .any(|(i, s)| *i == 42 && s.starts_with("hyprcap_mix_")));
    teardown_session_with(&sess, &mut pulse);
    assert!(pulse
        .port()
        .moves
        .iter()
        .any(|(i, s)| *i == 42 && s == "spk"));
}

#[test]
fn failed_mix_leaves_nothing_loaded() {
    let inv = AudioInventory {
        apps: vec![AudioAppInfo {
            index: 42,
            name: "Spotify".into(),
            media_name: None,
            sink: "spk".into(),
        }],
        ..Default::default()
    };
    let plan = AudioPlan {
        system: SystemAudioMode::App,
        app: Some("spot".into()),
        mic: true,
        mic_device: Some("mic".into()),
        ..Default::default()
    };
    for n in 5..9 {
        let mut pulse = Pulse::new(FakePulse {
            default_sink: "spk".into(),
            default_source: "mic".into(),
            inv: inv.clone(),
            next_id: 5,
            fail_after: Some(n),
            ..Default::default()
        });
        match setup_session_with(&plan, &mut pulse, 7) {
            Err(e) => {
                assert!(e.to_text().contains("fail"), "{e:?}");
                assert!(pulse.port().modules.is_empty(), "{n}");
                // What was moved is moved back.
                if let Some(last) = pulse.port().moves.last() {
                    assert_eq!(last, &(42, "spk".to_string()), "{n}");
                }
            }
            Ok(_) => assert!(pulse.port().next_id <= n, "{n}"),
        }
    }
}

#[test]
fn missing_pactl_is_told() {
    struct NoPactl(FakePulse);
    impl PulseCtl for NoPactl {
        fn command_exists(&self, _binary: &str) -> bool {
            false
        }
        fn default_sink(&mut self) -> Result<String, AudioError> {
            self.0.default_sink()
        }
        fn default_source(&mut self) -> Result<String, AudioError> {
            self.0.default_source()
        }
        fn list_inventory(&mut self) -> Result<AudioInventory, AudioError> {
            self.0.list_inventory()
        }
        fn load_module(&mut self, name: &str, args: &str) -> Result<u32, AudioError> {
            self.0.load_module(name, args)
        }
        fn unload_module(&mut self, id: u32) -> Result<(), AudioError> {
            self.0.unload_module(id)
        }
        fn move_sink_input(&mut self, index: u32, sink: &str) -> Result<(), AudioError> {
            self.0.move_sink_input(index, sink)
        }
    }
    let mut pulse = Pulse::new(NoPactl(FakePulse::default()));
    assert_eq!(
        setup_session_with(&AudioPlan::system_all(), &mut pulse, 1).unwrap_err(),
        AudioError::PactlMissing
    );
    let none = setup_session_with(&AudioPlan::off(), &mut pulse, 1).unwrap();
    assert!(none.is_none());
}

#[test]
fn plans_that_cannot_be_captured() {
    let inv = AudioInventory::default();
    let app = AudioPlan {
        system: SystemAudioMode::App,
        ..Default::default()
    };
    assert_eq!(
        plan_capture(&app, &inv, "spk", "mic").unwrap_err().to_text(),
        "audio: app audio selected but no app name"
    );
    let app = AudioPlan {
        app: Some("Spotify".into()),
        ..app
    };
    assert_eq!(
        plan_capture(&app, &inv, "spk", "mic").unwrap_err().to_text(),
        "audio: no playing app matching \"Spotify\" (start playback and retry)"
    );
    assert_eq!(
        plan_capture(&AudioPlan::system_all(), &inv, "", "mic").unwrap_err().to_text(),
        "audio: no default sink for system audio"
    );
    assert_eq!(
        plan_capture(&AudioPlan::off(), &inv, "spk", "mic").unwrap(),
        CaptureRecipe::Nothing
    );
}

#[test]
fn inventory_is_built_from_the_listing() {
    let listing = Listing {
        sinks_short: Ok("54\tspk\tPipeWire\n".into()),
        sources_short: Ok("60\tspk.monitor\tx\n61\tmic\tx\n".into()),
        sink_inputs: Ok("Sink Input #7\n Sink: 54\n application.name = \"Firefox\"\n".into()),
        default_sink: Ok(" spk \n".into()),
        default_source: Err(AudioError::Message("x".into())),
        sinks: Ok("Sink #54\n Name: spk\n Description: Speakers\n".into()),
        sources: Err(AudioError::PactlMissing),
    };
    let inv = inventory_from_listing(listing).unwrap();
    assert_eq!(inv.sinks.len(), 1);
    assert_eq!(inv.sinks[0].description, "Speakers");
    assert!(inv.sinks[0].is_default);
    assert_eq!(inv.sources.len(), 2);
    assert!(inv.sources[0].is_monitor);
    assert_eq!(inv.mics().len(), 1);
    assert_eq!(inv.apps[0].name, "Firefox");
    assert_eq!(inv.apps[0].sink, "spk");
    let broken = Listing {
        sinks_short: Err(AudioError::PactlMissing),
        sources_short: Ok(String::new()),
        sink_inputs: Ok(String::new()),
        default_sink: Ok(String::new()),
        default_source: Ok(String::new()),
        sinks: Ok(String::new()),
        sources: Ok(String::new()),
    };
    assert_eq!(inventory_from_listing(broken).unwrap_err(), AudioError::PactlMissing);
}

#[test]
fn answers_of_pactl_are_read() {
    let not_run = |missing: bool| PactlRun::NotRun {
        missing,
        error: "boom".into(),
    };
    let args = vec!["list".to_string(), "sinks".to_string()];
    assert_eq!(pactl_output(&args, PactlRun::Ran("x".into())).unwrap(), "x");
    assert_eq!(
        pactl_output(&args, not_run(true)).unwrap_err(),
        AudioError::PactlMissing
    );
    assert_eq!(
        pactl_output(&args, not_run(false)).unwrap_err().to_text(),
        "audio: pactl: boom"
    );
    assert_eq!(
        pactl_output(&args, PactlRun::Failed(" no \n".into())).unwrap_err().to_text(),
        "audio: pactl list sinks failed: no"
    );
    assert_eq!(default_device(Ok(" spk\n".into()), "sink").unwrap(), "spk");
    assert_eq!(
        default_device(Ok(" \n".into()), "sink").unwrap_err().to_text(),
        "audio: no default sink"
    );
    assert_eq!(
        load_module_args("module-loopback", "source=a  sink=b"),
        vec!["load-module", "module-loopback", "source=a", "sink=b"]
    );
    assert_eq!(loaded_module("m", PactlRun::Ran("17\n".into())).unwrap(), 17);
    assert_eq!(
        loaded_module("m", PactlRun::Ran("soon".into())).unwrap_err().to_text(),
        "audio: bad module id: soon"
    );
    assert_eq!(
        loaded_module("m", PactlRun::Failed("no".into())).unwrap_err().to_text(),
        "audio: pactl load-module m failed: no"
    );
    assert_eq!(
        loaded_module("m", not_run(true)).unwrap_err().to_text(),
        "audio: pactl load-module: boom"
    );
    assert!(unloaded_module(PactlRun::Failed("gone".into())).is_ok());
    assert!(unloaded_module(not_run(false)).is_err());
    assert!(moved_sink_input(1, "s", PactlRun::Ran(String::new())).is_ok());
    assert_eq!(
        moved_sink_input(1, "s", PactlRun::Failed("no".into())).unwrap_err().to_text(),
        "audio: move-sink-input 1 → s: no"
    );
}
