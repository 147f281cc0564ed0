//! The command line's decisions: which request a command makes, and what is
//! printed of the response.

use vstd::prelude::*;
use vstd::string::*;

use crate::audio::{AudioPlan, PlanView, SystemAudioMode};
use crate::ipc::{IpcCommand, IpcRequest, IpcResponse, RequestView, ResponseView};
use crate::text::{concat2, opt_view, str_eq, views};

verus! {

/// Whether the arguments ask for the server: only as the first argument.
pub fn is_server_mode(args: &Vec<String>) -> (r: bool)
    ensures
        r == (args@.len() > 1 && args@[1]@ == "--server"@),
{
    args.len() > 1 && str_eq(args[1].as_str(), "--server")
}

/// The audio flags of a command.
#[derive(Debug, Clone, PartialEq, Eq)]
pub struct AudioFlags {
    /// `--audio`.
    pub audio: bool,
    /// `--system`.
    pub system: Option<String>,
    /// `--audio-sink`.
    pub audio_sink: Option<String>,
    /// `--audio-app`.
    pub audio_app: Option<String>,
    /// `--mic`.
    pub mic: bool,
    /// `--mic-device`.
    pub mic_device: Option<String>,
}

/// What [`AudioFlags`] say.
#[verifier::ext_equal]
pub struct FlagsView {
    pub audio: bool,
    pub system: Option<Seq<char>>,
    pub audio_sink: Option<Seq<char>>,
    pub audio_app: Option<Seq<char>>,
    pub mic: bool,
    pub mic_device: Option<Seq<char>>,
}

impl View for AudioFlags {
    type V = FlagsView;

    open spec fn view(&self) -> FlagsView {
        FlagsView {
            audio: self.audio,
            system: opt_view(self.system),
            audio_sink: opt_view(self.audio_sink),
            audio_app: opt_view(self.audio_app),
            mic: self.mic,
            mic_device: opt_view(self.mic_device),
        }
    }
}

/// The audio plan that flags ask for; without any flag there is none. An unknown
/// system mode is off, and a microphone device asks for the microphone.
pub open spec fn flags_plan(f: FlagsView) -> Option<PlanView> {
    if !f.audio && f.system is None && f.audio_sink is None && f.audio_app is None && !f.mic
        && f.mic_device is None {
        None
    } else {
        Some(
            PlanView {
                system: match f.system {
                    Some(s) => match SystemAudioMode::named(s) {
                        Some(m) => m,
                        None => SystemAudioMode::Off,
                    },
                    None => if f.audio {
                        SystemAudioMode::All
                    } else {
                        SystemAudioMode::Off
                    },
                },
                sink: f.audio_sink,
                app: f.audio_app,
                mic: f.mic || f.mic_device is Some,
                mic_device: f.mic_device,
            }.normal(),
        )
    }
}

/// The audio plan that flags ask for.
pub fn cli_audio_plan(flags: AudioFlags) -> (r: Option<AudioPlan>)
    ensures
        match r {
            Some(p) => flags_plan(flags@) == Some(p@),
            None => flags_plan(flags@) is None,
        },
{
    let has_matrix = flags.system.is_some() || flags.audio_sink.is_some()
        || flags.audio_app.is_some() || flags.mic || flags.mic_device.is_some();
    if !has_matrix && !flags.audio {
        return None;
    }
    let system = match &flags.system {
        Some(s) => match SystemAudioMode::parse(s.as_str()) {
            Some(m) => m,
            None => SystemAudioMode::Off,
        },
        None => if flags.audio {
            SystemAudioMode::All
        } else {
            SystemAudioMode::Off
        },
    };
    let mic = flags.mic || flags.mic_device.is_some();
    Some(
        AudioPlan {
            system,
            sink: flags.audio_sink,
            app: flags.audio_app,
            mic,
            mic_device: flags.mic_device,
        }.normalized(),
    )
}

/// The request that starts a region with the given flags.
pub fn start_req_region(flags: AudioFlags) -> (r: IpcRequest)
    ensures
        r@ == (RequestView {
            audio_plan: flags_plan(flags@),
            ..RequestView::bare(IpcCommand::StartRegion)
        }),
{
    match cli_audio_plan(flags) {
        Some(plan) => IpcRequest::start_region_plan(plan),
        None => IpcRequest::start_region(None),
    }
}

/// The request that starts one monitor with the given flags.
pub fn start_req_fullscreen(flags: AudioFlags, output: Option<String>, fps: Option<u32>) -> (r:
    IpcRequest)
    ensures
        r@ == (RequestView {
            audio_plan: flags_plan(flags@),
            output: opt_view(output),
            fps,
            ..RequestView::bare(IpcCommand::StartFullscreen)
        }),
{
    match cli_audio_plan(flags) {
        Some(plan) => IpcRequest::start_fullscreen_plan(plan, output, fps),
        None => IpcRequest::start_fullscreen(None, output, fps),
    }
}

/// The request that starts both monitors with the given flags.
pub fn start_req_both(flags: AudioFlags) -> (r: IpcRequest)
    ensures
        r@ == (RequestView {
            audio_plan: flags_plan(flags@),
            ..RequestView::bare(IpcCommand::StartBoth)
        }),
{
    match cli_audio_plan(flags) {
        Some(plan) => IpcRequest::start_both_plan(plan),
        None => IpcRequest::start_both(None),
    }
}

/// How a toggle is requested.
#[derive(Debug, PartialEq, Eq)]
pub enum TogglePlan {
    /// The server toggles.
    Toggle(IpcRequest),
    /// The state is asked for first: see [`toggle_by_state`].
    ByState(AudioPlan),
}

/// A plan that a plain on/off switch cannot express.
pub open spec fn is_rich(p: PlanView) -> bool {
    p.mic || p.system == SystemAudioMode::App || p.sink is Some || p.mic_device is Some
}

/// How a toggle with the given flags is requested: by a plain toggle where a
/// switch says enough, else by asking for the state first.
pub fn toggle_plan(flags: AudioFlags) -> (r: TogglePlan)
    ensures
        match flags_plan(flags@) {
            Some(p) => if is_rich(p) {
                r matches TogglePlan::ByState(q) && q@ == p
            } else {
                r matches TogglePlan::Toggle(req) && req@ == (RequestView {
                    audio: if p.records() {
                        Some(true)
                    } else {
                        None
                    },
                    ..RequestView::bare(IpcCommand::ToggleRegion)
                })
            },
            None => r matches TogglePlan::Toggle(req) && req@ == RequestView::bare(
                IpcCommand::ToggleRegion,
            ),
        },
{
    match cli_audio_plan(flags) {
        Some(p) => {
            if p.mic || p.system == SystemAudioMode::App || p.sink.is_some()
                || p.mic_device.is_some() {
                TogglePlan::ByState(p)
            } else if p.enabled() {
                TogglePlan::Toggle(IpcRequest::toggle_region(Some(true)))
            } else {
                TogglePlan::Toggle(IpcRequest::toggle_region(None))
            }
        },
        None => TogglePlan::Toggle(IpcRequest::toggle_region(None)),
    }
}

/// The request that toggles with a plan, given the state of the session.
pub fn toggle_by_state(state: &str, plan: AudioPlan) -> (r: IpcRequest)
    ensures
        r@ == (if state@ == "Idle"@ {
            RequestView {
                audio_plan: Some(plan@),
                ..RequestView::bare(IpcCommand::StartRegion)
            }
        } else {
            RequestView::bare(IpcCommand::Stop)
        }),
{
    if str_eq(state, "Idle") {
        IpcRequest::start_region_plan(plan)
    } else {
        IpcRequest::stop()
    }
}

/// The lines printed for people: the message, unless it is empty, and each
/// warning.
pub open spec fn message_lines_of(resp: ResponseView) -> Seq<Seq<char>> {
    (if resp.message.len() > 0 {
        seq![resp.message]
    } else {
        Seq::empty()
    }) + resp.warnings.map_values(|w: Seq<char>| "warning: "@ + w)
}

/// The lines printed for people.
pub fn message_lines(resp: &IpcResponse) -> (r: Vec<String>)
    ensures
        views(r@) == message_lines_of(resp@),
{
    let mut out: Vec<String> = Vec::new();
    if !resp.message.as_str().is_empty() {
        out.push(resp.message.clone());
    }
    let ghost head = views(out@);
    let mut i: usize = 0;
    while i < resp.warnings.len()
        invariant
            i <= resp.warnings.len(),
            views(out@) == head + views(resp.warnings@).take(i as int).map_values(
                |w: Seq<char>| "warning: "@ + w,
            ),
        decreases resp.warnings.len() - i,
    {
        let ghost before = views(out@);
        let line = concat2("warning: ", resp.warnings[i].as_str());
        out.push(line);
        i = i + 1;
        proof {
            let ws = views(resp.warnings@);
            assert(views(out@) =~= before.push(line@));
            assert(ws.take(i as int) =~= ws.take(i - 1).push(ws[i - 1]));
            assert(views(out@) =~= head + ws.take(i as int).map_values(
                |w: Seq<char>| "warning: "@ + w,
            ));
        }
    }
    assert(views(resp.warnings@).take(resp.warnings@.len() as int) =~= views(resp.warnings@));
    assert(views(out@) =~= message_lines_of(resp@));
    out
}

/// The runtime directory, or a fallback where there is none.
pub fn runtime_dir_or_fallback(runtime_dir: Option<&str>) -> (r: String)
    ensures
        r@ == (match runtime_dir {
            Some(d) => d@,
            None => "/tmp/hyprcap-fallback"@,
        }),
{
    match runtime_dir {
        Some(d) => d.to_owned(),
        None => "/tmp/hyprcap-fallback".to_owned(),
    }
}

} // verus!
