//! User configuration: defaults, merging of what a config file sets, and the
//! sticky audio plan.

use vstd::prelude::*;
use vstd::string::*;

use crate::audio::{clean, cleaned, normal_is_idempotent, AudioPlan, PlanView, SystemAudioMode};
use crate::document::{
    document_result, entries_view, find_value, toml_document, toml_entries, value_at, TomlValue, TomlView,
};
use crate::path::{is_absolute_path, join_path, joined_path};
use crate::ports::{
    absolute_path, absolutize_path, default_videos_dir, videos_dir, Paths, PortError,
};
use crate::text::{borrow_opt, clone_opt, concat2, concat4, opt_str_view, opt_view, str_eq, trim};

verus! {

/// User-facing configuration.
#[derive(Debug, PartialEq, Eq)]
pub struct Config {
    /// Where recording files are written (absolute once normalized).
    pub output_dir: String,
    /// System audio is off unless switched on.
    pub audio_default: bool,
    /// Copy the absolute path to the clipboard on success.
    pub copy_path: bool,
    /// Desktop notifications.
    pub notify: bool,
    /// Notify when a start has no GUI client.
    pub notify_on_start_cli: bool,
    /// Wait after SIGINT before the SIGTERM escalation.
    pub stop_timeout_ms: u64,
    /// Wait after SIGTERM before SIGKILL.
    pub stop_term_timeout_ms: u64,
    /// Wayland output for one-monitor capture; needed with more than one output.
    pub fullscreen_output: Option<String>,
    /// Frame rate for one-monitor capture: none or zero means automatic.
    pub one_fps: Option<u32>,
    /// Sticky system audio mode; none leaves it to `audio_default`.
    pub system_audio: Option<SystemAudioMode>,
    /// Sticky sink for [`SystemAudioMode::All`].
    pub audio_sink: Option<String>,
    /// Sticky application for [`SystemAudioMode::App`].
    pub audio_app: Option<String>,
    /// Record the microphone by default.
    pub mic_default: bool,
    /// Sticky microphone source.
    pub mic_device: Option<String>,
}

/// What a [`Config`] says.
#[verifier::ext_equal]
pub struct ConfigView {
    pub output_dir: Seq<char>,
    pub audio_default: bool,
    pub copy_path: bool,
    pub notify: bool,
    pub notify_on_start_cli: bool,
    pub stop_timeout_ms: u64,
    pub stop_term_timeout_ms: u64,
    pub fullscreen_output: Option<Seq<char>>,
    pub one_fps: Option<u32>,
    pub system_audio: Option<SystemAudioMode>,
    pub audio_sink: Option<Seq<char>>,
    pub audio_app: Option<Seq<char>>,
    pub mic_default: bool,
    pub mic_device: Option<Seq<char>>,
}

impl View for Config {
    type V = ConfigView;

    open spec fn view(&self) -> ConfigView {
        ConfigView {
            output_dir: self.output_dir@,
            audio_default: self.audio_default,
            copy_path: self.copy_path,
            notify: self.notify,
            notify_on_start_cli: self.notify_on_start_cli,
            stop_timeout_ms: self.stop_timeout_ms,
            stop_term_timeout_ms: self.stop_term_timeout_ms,
            fullscreen_output: opt_view(self.fullscreen_output),
            one_fps: self.one_fps,
            system_audio: self.system_audio,
            audio_sink: opt_view(self.audio_sink),
            audio_app: opt_view(self.audio_app),
            mic_default: self.mic_default,
            mic_device: opt_view(self.mic_device),
        }
    }
}

impl ConfigView {
    /// The defaults for everything but the output directory.
    pub open spec fn defaults(output_dir: Seq<char>) -> ConfigView {
        ConfigView {
            output_dir,
            audio_default: false,
            copy_path: true,
            notify: true,
            notify_on_start_cli: true,
            stop_timeout_ms: 5000,
            stop_term_timeout_ms: 2000,
            fullscreen_output: None,
            one_fps: None,
            system_audio: None,
            audio_sink: None,
            audio_app: None,
            mic_default: false,
            mic_device: None,
        }
    }

    /// The configuration with its output directory made absolute below `base`;
    /// an empty one becomes `Videos` there.
    pub open spec fn with_paths(self, base: Seq<char>) -> ConfigView {
        ConfigView {
            output_dir: if self.output_dir.len() == 0 {
                joined_path(base, "Videos"@)
            } else {
                absolute_path(self.output_dir, base)
            },
            ..self
        }
    }

    /// The audio plan that the sticky fields describe. Without a sticky mode,
    /// `audio_default` asks for everything on the sink.
    pub open spec fn plan(self) -> PlanView {
        PlanView {
            system: match self.system_audio {
                Some(m) => m,
                None => if self.audio_default {
                    SystemAudioMode::All
                } else {
                    SystemAudioMode::Off
                },
            },
            sink: self.audio_sink,
            app: self.audio_app,
            mic: self.mic_default,
            mic_device: self.mic_device,
        }.normal()
    }

    /// The configuration with the sticky audio fields set from `plan`.
    pub open spec fn with_plan(self, plan: PlanView) -> ConfigView {
        ConfigView {
            system_audio: Some(plan.system),
            audio_sink: plan.normal().sink,
            audio_app: plan.normal().app,
            mic_default: plan.mic,
            mic_device: plan.normal().mic_device,
            ..self
        }
    }
}

impl Config {
    fn default_flags() -> (r: Self)
        ensures
            r@ == ConfigView::defaults(Seq::empty()),
    {
        Config {
            output_dir: String::new(),
            audio_default: false,
            copy_path: true,
            notify: true,
            notify_on_start_cli: true,
            stop_timeout_ms: 5000,
            stop_term_timeout_ms: 2000,
            fullscreen_output: None,
            one_fps: None,
            system_audio: None,
            audio_sink: None,
            audio_app: None,
            mic_default: false,
            mic_device: None,
        }
    }

    /// Defaults for a home directory that may be unknown: `Videos` below it, or
    /// the relative `Videos`.
    pub fn default_for_home(home: Option<&str>) -> (r: Self)
        ensures
            r@ == ConfigView::defaults(
                match home {
                    Some(h) => joined_path(h@, "Videos"@),
                    None => "Videos"@,
                },
            ),
    {
        let output_dir = match home {
            Some(h) => join_path(h, "Videos"),
            None => "Videos".to_owned(),
        };
        Config { output_dir, ..Config::default_flags() }
    }

    /// Defaults with the output directory that the paths port gives, made
    /// absolute below `cwd`.
    pub fn with_defaults<P: Paths>(paths: &P, cwd: &str) -> (r: Self)
        ensures
            exists|dir: String|
                call_ensures(P::output_dir, (paths,), dir) && r@ == ConfigView::defaults(
                    #[trigger] dir@,
                ).with_paths(cwd@),
    {
        let dir = paths.output_dir();
        let ghost d = dir;
        let mut cfg = Config { output_dir: dir, ..Config::default_flags() };
        cfg.normalize_paths(cwd);
        assert(call_ensures(P::output_dir, (paths,), d) && cfg@ == ConfigView::defaults(
            d@,
        ).with_paths(cwd@));
        cfg
    }

    /// Defaults for a home directory and an optional Videos user directory.
    pub fn with_home(home: &str, xdg_videos: Option<&str>) -> (r: Self)
        ensures
            r@ == ConfigView::defaults(videos_dir(home@, opt_str_view(xdg_videos))).with_paths(
                home@,
            ),
    {
        let mut cfg = Config {
            output_dir: default_videos_dir(home, xdg_videos),
            ..Config::default_flags()
        };
        cfg.normalize_paths(home);
        cfg
    }

    /// The configured output for one-monitor capture, if there is one.
    pub fn fullscreen_output_override(&self) -> (r: Option<&str>)
        ensures
            opt_str_view(r) == cleaned(self@.fullscreen_output),
    {
        match &self.fullscreen_output {
            Some(s) => {
                let t = trim(s.as_str());
                if t.is_empty() {
                    None
                } else {
                    Some(t)
                }
            },
            None => None,
        }
    }

    /// The configured frame rate for one-monitor capture; zero means automatic
    /// and is kept, so that it is told from an absent setting.
    pub fn one_fps_override(&self) -> (r: Option<u32>)
        ensures
            r == self@.one_fps,
    {
        self.one_fps
    }

    /// What a config file sets, over `defaults`: a missing file sets nothing.
    /// `contents` is what was read from `path`, `None` if there is no such file.
    pub fn load_from_path(
        path: &str,
        contents: Option<Result<String, String>>,
        defaults: Config,
        cwd: &str,
    ) -> (r: Result<Config, PortError>)
        ensures
            match contents {
                None => r == Ok::<Config, PortError>(defaults),
                Some(Err(e)) => r matches Err(PortError::Io(m)) && m@ == "read config "@ + path@
                    + ": "@ + e@,
                Some(Ok(text)) => parsed_config(text@, defaults@, cwd@) == config_result(r),
            },
            r is Err ==> r->Err_0 is Io,
    {
        match contents {
            None => Ok(defaults),
            Some(Err(e)) => Err(PortError::Io(concat4("read config ", path, ": ", e.as_str()))),
            Some(Ok(text)) => Config::parse_toml(text.as_str(), defaults, cwd),
        }
    }

    /// Load from what was read at the config path, over the defaults of the
    /// paths port.
    pub fn load<P: Paths>(
        paths: &P,
        contents: Option<Result<String, String>>,
        cwd: &str,
    ) -> (r: Result<Config, PortError>)
        ensures
            exists|dir: String, path: String|
                #![trigger dir@, path@]
                {
                    &&& call_ensures(P::output_dir, (paths,), dir)
                    &&& call_ensures(P::config_path, (paths,), path)
                    &&& match contents {
                        None => r matches Ok(c) && c@ == ConfigView::defaults(dir@).with_paths(cwd@),
                        Some(Err(e)) => r matches Err(PortError::Io(m)) && m@ == "read config "@
                            + path@ + ": "@ + e@,
                        Some(Ok(text)) => parsed_config(
                            text@,
                            ConfigView::defaults(dir@).with_paths(cwd@),
                            cwd@,
                        ) == config_result(r),
                    }
                },
            r is Err ==> r->Err_0 is Io,
    {
        let defaults = Config::with_defaults(paths, cwd);
        let path = paths.config_path();
        let ghost view = defaults@;
        let r = Config::load_from_path(path.as_str(), contents, defaults, cwd);
        proof {
            let dir = choose|dir: String|
                call_ensures(P::output_dir, (paths,), dir) && view == ConfigView::defaults(
                    #[trigger] dir@,
                ).with_paths(cwd@);
            assert(call_ensures(P::config_path, (paths,), path));
            assert(dir@ == dir@ && path@ == path@);
        }
        r
    }

    /// Read TOML text over `defaults`; the output directory becomes absolute.
    pub fn parse_toml(text: &str, defaults: Config, cwd: &str) -> (r: Result<Config, PortError>)
        ensures
            config_result(r) == parsed_config(text@, defaults@, cwd@),
            r is Err ==> r->Err_0 is Io,
    {
        Config::from_document(toml_entries(text), defaults, cwd)
    }

    /// The configuration that the entries of a document give over `defaults`; the
    /// output directory becomes absolute.
    pub fn from_document(
        document: Result<Vec<(String, TomlValue)>, String>,
        defaults: Config,
        cwd: &str,
    ) -> (r: Result<Config, PortError>)
        ensures
            config_result(r) == configured(document_result(document), defaults@, cwd@),
            r is Err ==> r->Err_0 is Io,
    {
        match document {
            Err(e) => Err(PortError::Io(concat2("parse config: ", e.as_str()))),
            Ok(doc) => match PartialConfig::from_entries(&doc) {
                Err(e) => Err(PortError::Io(concat2("parse config: ", e.as_str()))),
                Ok(partial) => {
                    let mut cfg = partial.merge(defaults);
                    cfg.normalize_paths(cwd);
                    Ok(cfg)
                },
            },
        }
    }

    /// Make the output directory absolute below `base`; an empty one becomes
    /// `Videos` there.
    pub fn normalize_paths(&mut self, base: &str)
        ensures
            final(self)@ == old(self)@.with_paths(base@),
    {
        if self.output_dir.as_str().is_empty() {
            self.output_dir = join_path(base, "Videos");
        } else {
            self.output_dir = absolutize_path(self.output_dir.as_str(), base);
        }
    }

    /// Milliseconds to wait after SIGINT.
    pub fn stop_timeout(&self) -> (r: u64)
        ensures
            r == self@.stop_timeout_ms,
    {
        self.stop_timeout_ms
    }

    /// Milliseconds to wait after SIGTERM.
    pub fn stop_term_timeout(&self) -> (r: u64)
        ensures
            r == self@.stop_term_timeout_ms,
    {
        self.stop_term_timeout_ms
    }

    /// Remember `plan` in the sticky audio fields.
    pub fn apply_audio_plan(&mut self, plan: &AudioPlan)
        ensures
            final(self)@ == old(self)@.with_plan(plan@),
    {
        let p = plan.clone().normalized();
        self.system_audio = Some(p.system);
        self.audio_sink = p.sink;
        self.audio_app = p.app;
        self.mic_default = p.mic;
        self.mic_device = p.mic_device;
    }

    /// The audio plan that the sticky fields describe.
    pub fn audio_plan(&self) -> (r: AudioPlan)
        ensures
            r@ == self@.plan(),
    {
        let system = match self.system_audio {
            Some(m) => m,
            None => if self.audio_default {
                SystemAudioMode::All
            } else {
                SystemAudioMode::Off
            },
        };
        AudioPlan {
            system,
            sink: clean(borrow_opt(&self.audio_sink)),
            app: clean(borrow_opt(&self.audio_app)),
            mic: self.mic_default,
            mic_device: clean(borrow_opt(&self.mic_device)),
        }
    }
}

impl Clone for Config {
    fn clone(&self) -> (r: Self)
        ensures
            r@ == self@,
    {
        Config {
            output_dir: self.output_dir.clone(),
            audio_default: self.audio_default,
            copy_path: self.copy_path,
            notify: self.notify,
            notify_on_start_cli: self.notify_on_start_cli,
            stop_timeout_ms: self.stop_timeout_ms,
            stop_term_timeout_ms: self.stop_term_timeout_ms,
            fullscreen_output: clone_opt(&self.fullscreen_output),
            one_fps: self.one_fps,
            system_audio: self.system_audio,
            audio_sink: clone_opt(&self.audio_sink),
            audio_app: clone_opt(&self.audio_app),
            mic_default: self.mic_default,
            mic_device: clone_opt(&self.mic_device),
        }
    }
}

// ---------------------------------------------------------------------------
// What a config file sets
// ---------------------------------------------------------------------------

/// The settings that a config file holds; the others keep their defaults.
#[derive(Debug, PartialEq, Eq)]
pub struct PartialConfig {
    pub output_dir: Option<String>,
    pub audio_default: Option<bool>,
    pub copy_path: Option<bool>,
    pub notify: Option<bool>,
    pub notify_on_start_cli: Option<bool>,
    pub stop_timeout_ms: Option<u64>,
    pub stop_term_timeout_ms: Option<u64>,
    pub fullscreen_output: Option<String>,
    pub one_fps: Option<u32>,
    pub system_audio: Option<SystemAudioMode>,
    pub audio_sink: Option<String>,
    pub audio_app: Option<String>,
    pub mic_default: Option<bool>,
    pub mic_device: Option<String>,
}

/// What a [`PartialConfig`] says.
#[verifier::ext_equal]
pub struct PartialView {
    pub output_dir: Option<Seq<char>>,
    pub audio_default: Option<bool>,
    pub copy_path: Option<bool>,
    pub notify: Option<bool>,
    pub notify_on_start_cli: Option<bool>,
    pub stop_timeout_ms: Option<u64>,
    pub stop_term_timeout_ms: Option<u64>,
    pub fullscreen_output: Option<Seq<char>>,
    pub one_fps: Option<u32>,
    pub system_audio: Option<SystemAudioMode>,
    pub audio_sink: Option<Seq<char>>,
    pub audio_app: Option<Seq<char>>,
    pub mic_default: Option<bool>,
    pub mic_device: Option<Seq<char>>,
}

impl View for PartialConfig {
    type V = PartialView;

    open spec fn view(&self) -> PartialView {
        PartialView {
            output_dir: opt_view(self.output_dir),
            audio_default: self.audio_default,
            copy_path: self.copy_path,
            notify: self.notify,
            notify_on_start_cli: self.notify_on_start_cli,
            stop_timeout_ms: self.stop_timeout_ms,
            stop_term_timeout_ms: self.stop_term_timeout_ms,
            fullscreen_output: opt_view(self.fullscreen_output),
            one_fps: self.one_fps,
            system_audio: self.system_audio,
            audio_sink: opt_view(self.audio_sink),
            audio_app: opt_view(self.audio_app),
            mic_default: self.mic_default,
            mic_device: opt_view(self.mic_device),
        }
    }
}

/// A setting that is there wins over its default.
pub open spec fn set_or<T>(set: Option<T>, default: T) -> T {
    match set {
        Some(v) => v,
        None => default,
    }
}

/// An optional setting that is there wins over its default.
pub open spec fn set_opt_or<T>(set: Option<T>, default: Option<T>) -> Option<T> {
    match set {
        Some(v) => Some(v),
        None => default,
    }
}

fn pick<T>(set: Option<T>, default: T) -> (r: T)
    ensures
        r == set_or(set, default),
{
    match set {
        Some(v) => v,
        None => default,
    }
}

fn pick_opt<T>(set: Option<T>, default: Option<T>) -> (r: Option<T>)
    ensures
        r == set_opt_or(set, default),
{
    match set {
        Some(v) => Some(v),
        None => default,
    }
}

impl PartialView {
    /// The settings over `base`.
    pub open spec fn over(self, base: ConfigView) -> ConfigView {
        ConfigView {
            output_dir: set_or(self.output_dir, base.output_dir),
            audio_default: set_or(self.audio_default, base.audio_default),
            copy_path: set_or(self.copy_path, base.copy_path),
            notify: set_or(self.notify, base.notify),
            notify_on_start_cli: set_or(self.notify_on_start_cli, base.notify_on_start_cli),
            stop_timeout_ms: set_or(self.stop_timeout_ms, base.stop_timeout_ms),
            stop_term_timeout_ms: set_or(self.stop_term_timeout_ms, base.stop_term_timeout_ms),
            fullscreen_output: set_opt_or(self.fullscreen_output, base.fullscreen_output),
            one_fps: set_opt_or(self.one_fps, base.one_fps),
            system_audio: set_opt_or(self.system_audio, base.system_audio),
            audio_sink: set_opt_or(self.audio_sink, base.audio_sink),
            audio_app: set_opt_or(self.audio_app, base.audio_app),
            mic_default: set_or(self.mic_default, base.mic_default),
            mic_device: set_opt_or(self.mic_device, base.mic_device),
        }
    }

    /// The settings of a document that sets nothing.
    pub open spec fn nothing() -> PartialView {
        PartialView {
            output_dir: None,
            audio_default: None,
            copy_path: None,
            notify: None,
            notify_on_start_cli: None,
            stop_timeout_ms: None,
            stop_term_timeout_ms: None,
            fullscreen_output: None,
            one_fps: None,
            system_audio: None,
            audio_sink: None,
            audio_app: None,
            mic_default: None,
            mic_device: None,
        }
    }
}

/// The message for a setting of the wrong kind.
pub open spec fn wrong_kind(key: Seq<char>) -> Seq<char> {
    "invalid value for "@ + key
}

/// A text setting.
pub open spec fn text_setting(
    doc: Seq<(Seq<char>, TomlView)>,
    key: Seq<char>,
) -> Result<Option<Seq<char>>, Seq<char>> {
    match value_at(doc, key) {
        None => Ok(None),
        Some(TomlView::Text(s)) => Ok(Some(s)),
        _ => Err(wrong_kind(key)),
    }
}

/// An on/off setting.
pub open spec fn flag_setting(
    doc: Seq<(Seq<char>, TomlView)>,
    key: Seq<char>,
) -> Result<Option<bool>, Seq<char>> {
    match value_at(doc, key) {
        None => Ok(None),
        Some(TomlView::Boolean(b)) => Ok(Some(b)),
        _ => Err(wrong_kind(key)),
    }
}

/// A number of milliseconds.
pub open spec fn millis_setting(
    doc: Seq<(Seq<char>, TomlView)>,
    key: Seq<char>,
) -> Result<Option<u64>, Seq<char>> {
    match value_at(doc, key) {
        None => Ok(None),
        Some(TomlView::Integer(i)) => if i >= 0 {
            Ok(Some(i as u64))
        } else {
            Err(wrong_kind(key))
        },
        _ => Err(wrong_kind(key)),
    }
}

/// A frame rate.
pub open spec fn rate_setting(
    doc: Seq<(Seq<char>, TomlView)>,
    key: Seq<char>,
) -> Result<Option<u32>, Seq<char>> {
    match value_at(doc, key) {
        None => Ok(None),
        Some(TomlView::Integer(i)) => if 0 <= i <= u32::MAX {
            Ok(Some(i as u32))
        } else {
            Err(wrong_kind(key))
        },
        _ => Err(wrong_kind(key)),
    }
}

/// A system audio mode, given by its word.
pub open spec fn mode_setting(
    doc: Seq<(Seq<char>, TomlView)>,
    key: Seq<char>,
) -> Result<Option<SystemAudioMode>, Seq<char>> {
    match value_at(doc, key) {
        None => Ok(None),
        Some(TomlView::Text(s)) => if s == SystemAudioMode::Off.word() {
            Ok(Some(SystemAudioMode::Off))
        } else if s == SystemAudioMode::All.word() {
            Ok(Some(SystemAudioMode::All))
        } else if s == SystemAudioMode::App.word() {
            Ok(Some(SystemAudioMode::App))
        } else {
            Err(wrong_kind(key))
        },
        _ => Err(wrong_kind(key)),
    }
}

/// The settings that a document holds. Unknown keys are passed over; a known key
/// with a value of the wrong kind is an error, the first in the order below.
pub open spec fn settings_of(
    doc: Seq<(Seq<char>, TomlView)>,
) -> Result<PartialView, Seq<char>> {
    let output_dir = text_setting(doc, "output_dir"@);
    let audio_default = flag_setting(doc, "audio_default"@);
    let copy_path = flag_setting(doc, "copy_path"@);
    let notify = flag_setting(doc, "notify"@);
    let notify_on_start_cli = flag_setting(doc, "notify_on_start_cli"@);
    let stop_timeout_ms = millis_setting(doc, "stop_timeout_ms"@);
    let stop_term_timeout_ms = millis_setting(doc, "stop_term_timeout_ms"@);
    let fullscreen_output = text_setting(doc, "fullscreen_output"@);
    let one_fps = rate_setting(doc, "one_fps"@);
    let system_audio = mode_setting(doc, "system_audio"@);
    let audio_sink = text_setting(doc, "audio_sink"@);
    let audio_app = text_setting(doc, "audio_app"@);
    let mic_default = flag_setting(doc, "mic_default"@);
    let mic_device = text_setting(doc, "mic_device"@);
    if output_dir is Err {
        Err(output_dir->Err_0)
    } else if audio_default is Err {
        Err(audio_default->Err_0)
    } else if copy_path is Err {
        Err(copy_path->Err_0)
    } else if notify is Err {
        Err(notify->Err_0)
    } else if notify_on_start_cli is Err {
        Err(notify_on_start_cli->Err_0)
    } else if stop_timeout_ms is Err {
        Err(stop_timeout_ms->Err_0)
    } else if stop_term_timeout_ms is Err {
        Err(stop_term_timeout_ms->Err_0)
    } else if fullscreen_output is Err {
        Err(fullscreen_output->Err_0)
    } else if one_fps is Err {
        Err(one_fps->Err_0)
    } else if system_audio is Err {
        Err(system_audio->Err_0)
    } else if audio_sink is Err {
        Err(audio_sink->Err_0)
    } else if audio_app is Err {
        Err(audio_app->Err_0)
    } else if mic_default is Err {
        Err(mic_default->Err_0)
    } else if mic_device is Err {
        Err(mic_device->Err_0)
    } else {
        Ok(
            PartialView {
                output_dir: output_dir->Ok_0,
                audio_default: audio_default->Ok_0,
                copy_path: copy_path->Ok_0,
                notify: notify->Ok_0,
                notify_on_start_cli: notify_on_start_cli->Ok_0,
                stop_timeout_ms: stop_timeout_ms->Ok_0,
                stop_term_timeout_ms: stop_term_timeout_ms->Ok_0,
                fullscreen_output: fullscreen_output->Ok_0,
                one_fps: one_fps->Ok_0,
                system_audio: system_audio->Ok_0,
                audio_sink: audio_sink->Ok_0,
                audio_app: audio_app->Ok_0,
                mic_default: mic_default->Ok_0,
                mic_device: mic_device->Ok_0,
            },
        )
    }
}

/// The configuration that TOML text over `defaults` gives, or the message why not.
pub open spec fn parsed_config(
    text: Seq<char>,
    defaults: ConfigView,
    cwd: Seq<char>,
) -> Result<ConfigView, Seq<char>> {
    configured(toml_document(text), defaults, cwd)
}

/// The configuration that a document gives over defaults.
pub open spec fn configured(
    document: Result<Seq<(Seq<char>, TomlView)>, Seq<char>>,
    defaults: ConfigView,
    cwd: Seq<char>,
) -> Result<ConfigView, Seq<char>> {
    match document {
        Err(e) => Err("parse config: "@ + e),
        Ok(doc) => match settings_of(doc) {
            Err(e) => Err("parse config: "@ + e),
            Ok(p) => Ok(p.over(defaults).with_paths(cwd)),
        },
    }
}

/// The views of a result of reading a configuration; every error is an I/O error.
pub open spec fn config_result(r: Result<Config, PortError>) -> Result<ConfigView, Seq<char>> {
    match r {
        Ok(c) => Ok(c@),
        Err(PortError::Io(m)) => Err(m@),
        Err(_) => Err(Seq::empty()),
    }
}

fn read_text(doc: &Vec<(String, TomlValue)>, key: &str) -> (r: Result<Option<String>, String>)
    ensures
        match r {
            Ok(v) => text_setting(entries_view(doc@), key@) == Ok::<
                Option<Seq<char>>,
                Seq<char>,
            >(opt_view(v)),
            Err(e) => text_setting(entries_view(doc@), key@) == Err::<
                Option<Seq<char>>,
                Seq<char>,
            >(e@),
        },
{
    match find_value(doc, key) {
        None => Ok(None),
        Some(TomlValue::Text(s)) => Ok(Some(s.clone())),
        Some(_) => Err(concat2("invalid value for ", key)),
    }
}

fn read_flag(doc: &Vec<(String, TomlValue)>, key: &str) -> (r: Result<Option<bool>, String>)
    ensures
        match r {
            Ok(v) => flag_setting(entries_view(doc@), key@) == Ok::<Option<bool>, Seq<char>>(v),
            Err(e) => flag_setting(entries_view(doc@), key@) == Err::<Option<bool>, Seq<char>>(e@),
        },
{
    match find_value(doc, key) {
        None => Ok(None),
        Some(TomlValue::Boolean(b)) => Ok(Some(*b)),
        Some(_) => Err(concat2("invalid value for ", key)),
    }
}

fn read_millis(doc: &Vec<(String, TomlValue)>, key: &str) -> (r: Result<Option<u64>, String>)
    ensures
        match r {
            Ok(v) => millis_setting(entries_view(doc@), key@) == Ok::<Option<u64>, Seq<char>>(v),
            Err(e) => millis_setting(entries_view(doc@), key@) == Err::<Option<u64>, Seq<char>>(e@),
        },
{
    match find_value(doc, key) {
        None => Ok(None),
        Some(TomlValue::Integer(i)) => {
            let i: i64 = *i;
            if i >= 0 {
                Ok(Some(i as u64))
            } else {
                Err(concat2("invalid value for ", key))
            }
        },
        Some(_) => Err(concat2("invalid value for ", key)),
    }
}

fn read_rate(doc: &Vec<(String, TomlValue)>, key: &str) -> (r: Result<Option<u32>, String>)
    ensures
        match r {
            Ok(v) => rate_setting(entries_view(doc@), key@) == Ok::<Option<u32>, Seq<char>>(v),
            Err(e) => rate_setting(entries_view(doc@), key@) == Err::<Option<u32>, Seq<char>>(e@),
        },
{
    match find_value(doc, key) {
        None => Ok(None),
        Some(TomlValue::Integer(i)) => {
            let i: i64 = *i;
            if 0 <= i && i <= 0xffff_ffff {
                Ok(Some(i as u32))
            } else {
                Err(concat2("invalid value for ", key))
            }
        },
        Some(_) => Err(concat2("invalid value for ", key)),
    }
}

fn read_mode(doc: &Vec<(String, TomlValue)>, key: &str) -> (r: Result<
    Option<SystemAudioMode>,
    String,
>)
    ensures
        match r {
            Ok(v) => mode_setting(entries_view(doc@), key@) == Ok::<
                Option<SystemAudioMode>,
                Seq<char>,
            >(v),
            Err(e) => mode_setting(entries_view(doc@), key@) == Err::<
                Option<SystemAudioMode>,
                Seq<char>,
            >(e@),
        },
{
    match find_value(doc, key) {
        None => Ok(None),
        Some(TomlValue::Text(s)) => if str_eq(s.as_str(), SystemAudioMode::Off.as_str()) {
            Ok(Some(SystemAudioMode::Off))
        } else if str_eq(s.as_str(), SystemAudioMode::All.as_str()) {
            Ok(Some(SystemAudioMode::All))
        } else if str_eq(s.as_str(), SystemAudioMode::App.as_str()) {
            Ok(Some(SystemAudioMode::App))
        } else {
            Err(concat2("invalid value for ", key))
        },
        Some(_) => Err(concat2("invalid value for ", key)),
    }
}

impl PartialConfig {
    /// The settings of a document.
    pub fn from_entries(doc: &Vec<(String, TomlValue)>) -> (r: Result<PartialConfig, String>)
        ensures
            match r {
                Ok(p) => settings_of(entries_view(doc@)) == Ok::<PartialView, Seq<char>>(p@),
                Err(e) => settings_of(entries_view(doc@)) == Err::<PartialView, Seq<char>>(e@),
            },
    {
        let output_dir = read_text(doc, "output_dir")?;
        let audio_default = read_flag(doc, "audio_default")?;
        let copy_path = read_flag(doc, "copy_path")?;
        let notify = read_flag(doc, "notify")?;
        let notify_on_start_cli = read_flag(doc, "notify_on_start_cli")?;
        let stop_timeout_ms: Option<u64> = read_millis(doc, "stop_timeout_ms")?;
        let stop_term_timeout_ms: Option<u64> = read_millis(doc, "stop_term_timeout_ms")?;
        let fullscreen_output = read_text(doc, "fullscreen_output")?;
        let one_fps: Option<u32> = read_rate(doc, "one_fps")?;
        let system_audio = read_mode(doc, "system_audio")?;
        let audio_sink = read_text(doc, "audio_sink")?;
        let audio_app = read_text(doc, "audio_app")?;
        let mic_default = read_flag(doc, "mic_default")?;
        let mic_device = read_text(doc, "mic_device")?;
        Ok(
            PartialConfig {
                output_dir,
                audio_default,
                copy_path,
                notify,
                notify_on_start_cli,
                stop_timeout_ms,
                stop_term_timeout_ms,
                fullscreen_output,
                one_fps,
                system_audio,
                audio_sink,
                audio_app,
                mic_default,
                mic_device,
            },
        )
    }

    /// The settings over `base`.
    pub fn merge(self, base: Config) -> (r: Config)
        ensures
            r@ == self@.over(base@),
    {
        Config {
            output_dir: pick(self.output_dir, base.output_dir),
            audio_default: pick(self.audio_default, base.audio_default),
            copy_path: pick(self.copy_path, base.copy_path),
            notify: pick(self.notify, base.notify),
            notify_on_start_cli: pick(self.notify_on_start_cli, base.notify_on_start_cli),
            stop_timeout_ms: pick(self.stop_timeout_ms, base.stop_timeout_ms),
            stop_term_timeout_ms: pick(self.stop_term_timeout_ms, base.stop_term_timeout_ms),
            fullscreen_output: pick_opt(self.fullscreen_output, base.fullscreen_output),
            one_fps: pick_opt(self.one_fps, base.one_fps),
            system_audio: pick_opt(self.system_audio, base.system_audio),
            audio_sink: pick_opt(self.audio_sink, base.audio_sink),
            audio_app: pick_opt(self.audio_app, base.audio_app),
            mic_default: pick(self.mic_default, base.mic_default),
            mic_device: pick_opt(self.mic_device, base.mic_device),
        }
    }
}

// ---------------------------------------------------------------------------
// Laws
// ---------------------------------------------------------------------------

/// A normalized configuration writes to an absolute directory, and normalizing
/// again, below whatever base, changes nothing.
pub proof fn normalized_output_is_absolute(c: ConfigView, base: Seq<char>, other: Seq<char>)
    requires
        is_absolute_path(base),
    ensures
        is_absolute_path(c.with_paths(base).output_dir),
        c.with_paths(base).with_paths(other) == c.with_paths(base),
{
    assert("Videos"@.len() > 0) by {
        reveal_strlit("Videos");
    }
}

/// A plan that was remembered is the plan in force, with its names cleaned.
pub proof fn remembered_plan_is_in_force(c: ConfigView, plan: PlanView)
    ensures
        c.with_plan(plan).plan() == plan.normal(),
{
    normal_is_idempotent(plan);
}

/// Without sticky audio settings, `audio_default` alone decides: everything on
/// the default sink, or nothing.
pub proof fn legacy_audio_default(c: ConfigView)
    requires
        c.system_audio is None,
        c.audio_sink is None,
        c.audio_app is None,
        !c.mic_default,
        c.mic_device is None,
    ensures
        c.plan() == (if c.audio_default {
            PlanView::everything()
        } else {
            PlanView::silent()
        }),
{
}

/// A document that sets nothing leaves the defaults.
pub proof fn empty_document_keeps_defaults(base: ConfigView)
    ensures
        settings_of(Seq::empty()) == Ok::<PartialView, Seq<char>>(PartialView::nothing()),
        PartialView::nothing().over(base) == base,
{
}

} // verus!
