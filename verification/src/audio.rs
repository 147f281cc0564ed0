//! System, application and microphone audio: the user's plan, the inventory
//! that `pactl` prints, and the recipe that captures the plan as one source.

use vstd::prelude::*;
use vstd::string::*;

use crate::config::Config;
use crate::seqs::{first_where, index_where_is, somes};
use crate::text::{
    after_prefix, borrow_opt, clone_opt, concat2, concat3, contains_ignore_ascii_case, decimal,
    ends_with, eq_ignore_ascii_case, has_ignoring_case, has_prefix, has_suffix, lines, lines_of,
    opt_str_view, opt_view, parse_u32, parsed_u32, same_ignoring_case, split_whitespace,
    starts_with, str_eq, strip_prefix, trim, trim_is_idempotent, trim_of, u64_to_string, views,
    words_of,
};

verus! {

// ---------------------------------------------------------------------------
// Plan
// ---------------------------------------------------------------------------

/// How system (playback) audio is captured.
#[derive(Debug, Clone, Copy, PartialEq, Eq, Structural)]
pub enum SystemAudioMode {
    Off,
    /// Everything playing on a sink (default or named).
    All,
    /// A single application's stream (matched by name).
    App,
}

impl Default for SystemAudioMode {
    fn default() -> (r: Self)
        ensures
            r == SystemAudioMode::Off,
    {
        SystemAudioMode::Off
    }
}

impl SystemAudioMode {
    /// The word that stands for the mode.
    pub open spec fn word(self) -> Seq<char> {
        match self {
            SystemAudioMode::Off => "off"@,
            SystemAudioMode::All => "all"@,
            SystemAudioMode::App => "app"@,
        }
    }

    /// The mode that `s` names, up to case and surrounding white space.
    pub open spec fn named(s: Seq<char>) -> Option<SystemAudioMode> {
        let t = trim_of(s);
        if same_ignoring_case(t, "off"@) || same_ignoring_case(t, "none"@) || same_ignoring_case(
            t,
            "false"@,
        ) || same_ignoring_case(t, "0"@) {
            Some(SystemAudioMode::Off)
        } else if same_ignoring_case(t, "all"@) || same_ignoring_case(t, "system"@)
            || same_ignoring_case(t, "pc"@) || same_ignoring_case(t, "true"@)
            || same_ignoring_case(t, "1"@) {
            Some(SystemAudioMode::All)
        } else if same_ignoring_case(t, "app"@) || same_ignoring_case(t, "application"@) {
            Some(SystemAudioMode::App)
        } else {
            None
        }
    }

    /// The word that stands for the mode.
    pub fn as_str(self) -> (r: &'static str)
        ensures
            r@ == self.word(),
    {
        match self {
            SystemAudioMode::Off => "off",
            SystemAudioMode::All => "all",
            SystemAudioMode::App => "app",
        }
    }

    /// The mode that `s` names.
    pub fn parse(s: &str) -> (r: Option<Self>)
        ensures
            r == Self::named(s@),
    {
        let t = trim(s);
        if eq_ignore_ascii_case(t, "off") || eq_ignore_ascii_case(t, "none")
            || eq_ignore_ascii_case(t, "false") || eq_ignore_ascii_case(t, "0") {
            Some(SystemAudioMode::Off)
        } else if eq_ignore_ascii_case(t, "all") || eq_ignore_ascii_case(t, "system")
            || eq_ignore_ascii_case(t, "pc") || eq_ignore_ascii_case(t, "true")
            || eq_ignore_ascii_case(t, "1") {
            Some(SystemAudioMode::All)
        } else if eq_ignore_ascii_case(t, "app") || eq_ignore_ascii_case(t, "application") {
            Some(SystemAudioMode::App)
        } else {
            None
        }
    }
}

/// The word that stands for a mode names that mode.
pub proof fn mode_word_names_mode(m: SystemAudioMode)
    ensures
        SystemAudioMode::named(m.word()) == Some(m),
{
    reveal_strlit("off");
    reveal_strlit("none");
    reveal_strlit("false");
    reveal_strlit("0");
    reveal_strlit("all");
    reveal_strlit("system");
    reveal_strlit("pc");
    reveal_strlit("true");
    reveal_strlit("1");
    reveal_strlit("app");
    let w = m.word();
    assert(trim_of(w) == w);
    if m == SystemAudioMode::All {
        assert(w[0] == 'a' && "off"@[0] == 'o');
        assert(!same_ignoring_case(w, "off"@));
    } else if m == SystemAudioMode::App {
        assert(w[0] == 'a' && "off"@[0] == 'o');
        assert(!same_ignoring_case(w, "off"@));
        assert(w[1] == 'p' && "all"@[1] == 'l');
        assert(!same_ignoring_case(w, "all"@));
    }
}

/// User-facing audio intent for one recording session.
#[derive(Debug, PartialEq, Eq)]
pub struct AudioPlan {
    pub system: SystemAudioMode,
    /// Sink name for [`SystemAudioMode::All`]; none or empty means the default sink.
    pub sink: Option<String>,
    /// Application name for [`SystemAudioMode::App`].
    pub app: Option<String>,
    /// Record a microphone input.
    pub mic: bool,
    /// Microphone source name; none or empty means the default input source.
    pub mic_device: Option<String>,
}

/// What an [`AudioPlan`] says.
#[verifier::ext_equal]
pub struct PlanView {
    pub system: SystemAudioMode,
    pub sink: Option<Seq<char>>,
    pub app: Option<Seq<char>>,
    pub mic: bool,
    pub mic_device: Option<Seq<char>>,
}

impl View for AudioPlan {
    type V = PlanView;

    open spec fn view(&self) -> PlanView {
        PlanView {
            system: self.system,
            sink: opt_view(self.sink),
            app: opt_view(self.app),
            mic: self.mic,
            mic_device: opt_view(self.mic_device),
        }
    }
}

/// A name without surrounding white space; none where nothing is left.
pub open spec fn cleaned(o: Option<Seq<char>>) -> Option<Seq<char>> {
    match o {
        Some(s) => if trim_of(s).len() > 0 {
            Some(trim_of(s))
        } else {
            None
        },
        None => None,
    }
}

impl PlanView {
    /// The plan that records no audio.
    pub open spec fn silent() -> PlanView {
        PlanView { system: SystemAudioMode::Off, sink: None, app: None, mic: false, mic_device: None }
    }

    /// The plan that records everything on the default sink, and no microphone.
    pub open spec fn everything() -> PlanView {
        PlanView { system: SystemAudioMode::All, sink: None, app: None, mic: false, mic_device: None }
    }

    /// Whether the plan records anything.
    pub open spec fn records(self) -> bool {
        self.system != SystemAudioMode::Off || self.mic
    }

    /// The plan with each name cleaned.
    pub open spec fn normal(self) -> PlanView {
        PlanView {
            system: self.system,
            sink: cleaned(self.sink),
            app: cleaned(self.app),
            mic: self.mic,
            mic_device: cleaned(self.mic_device),
        }
    }
}

/// Normalizing a plan twice is normalizing it once.
pub proof fn normal_is_idempotent(p: PlanView)
    ensures
        p.normal().normal() == p.normal(),
{
    if p.sink is Some {
        trim_is_idempotent(p.sink->0);
    }
    if p.app is Some {
        trim_is_idempotent(p.app->0);
    }
    if p.mic_device is Some {
        trim_is_idempotent(p.mic_device->0);
    }
}

/// `o` without surrounding white space; none where nothing is left.
pub fn clean(o: Option<&str>) -> (r: Option<String>)
    ensures
        opt_view(r) == cleaned(opt_str_view(o)),
{
    match o {
        Some(s) => {
            let t = trim(s);
            if t.is_empty() {
                None
            } else {
                Some(t.to_owned())
            }
        },
        None => None,
    }
}

impl Default for AudioPlan {
    fn default() -> (r: Self)
        ensures
            r@ == PlanView::silent(),
    {
        AudioPlan {
            system: SystemAudioMode::Off,
            sink: None,
            app: None,
            mic: false,
            mic_device: None,
        }
    }
}

impl AudioPlan {
    /// No audio.
    pub fn off() -> (r: Self)
        ensures
            r@ == PlanView::silent(),
    {
        AudioPlan::default()
    }

    /// All system sound on the default sink, no microphone.
    pub fn system_all() -> (r: Self)
        ensures
            r@ == PlanView::everything(),
    {
        AudioPlan {
            system: SystemAudioMode::All,
            sink: None,
            app: None,
            mic: false,
            mic_device: None,
        }
    }

    /// Whether the plan records anything.
    pub fn enabled(&self) -> (r: bool)
        ensures
            r == self@.records(),
    {
        self.system != SystemAudioMode::Off || self.mic
    }

    /// The plan in force: the request's plan, else its on/off switch, else the
    /// configured plan.
    pub fn resolve(plan: Option<AudioPlan>, legacy_audio: Option<bool>, config: &Config) -> (r: Self)
        ensures
            r@ == (match plan {
                Some(p) => p@.normal(),
                None => match legacy_audio {
                    Some(true) => PlanView::everything(),
                    Some(false) => PlanView::silent(),
                    None => config@.plan(),
                },
            }),
    {
        if let Some(p) = plan {
            return p.normalized();
        }
        if let Some(on) = legacy_audio {
            return if on {
                AudioPlan::system_all()
            } else {
                AudioPlan::off()
            };
        }
        config.audio_plan()
    }

    /// The plan with each name cleaned.
    pub fn normalized(self) -> (r: Self)
        ensures
            r@ == self@.normal(),
    {
        AudioPlan {
            system: self.system,
            sink: clean(borrow_opt(&self.sink)),
            app: clean(borrow_opt(&self.app)),
            mic: self.mic,
            mic_device: clean(borrow_opt(&self.mic_device)),
        }
    }
}

impl Clone for AudioPlan {
    fn clone(&self) -> (r: Self)
        ensures
            r@ == self@,
    {
        AudioPlan {
            system: self.system,
            sink: clone_opt(&self.sink),
            app: clone_opt(&self.app),
            mic: self.mic,
            mic_device: clone_opt(&self.mic_device),
        }
    }
}

// ---------------------------------------------------------------------------
// Inventory
// ---------------------------------------------------------------------------

/// A playback device.
#[derive(Debug, Clone, PartialEq, Eq)]
pub struct AudioSinkInfo {
    pub name: String,
    pub description: String,
    pub is_default: bool,
}

/// A capture device.
#[derive(Debug, Clone, PartialEq, Eq)]
pub struct AudioSourceInfo {
    pub name: String,
    pub description: String,
    pub is_default: bool,
    /// True for `*.monitor` (playback monitors), false for real inputs.
    pub is_monitor: bool,
}

/// An application that is playing sound.
#[derive(Debug, Clone, PartialEq, Eq)]
pub struct AudioAppInfo {
    /// Index of the sink input.
    pub index: u32,
    pub name: String,
    pub media_name: Option<String>,
    pub sink: String,
}

/// Devices and playing applications.
#[derive(Debug, Clone, PartialEq, Eq)]
pub struct AudioInventory {
    pub sinks: Vec<AudioSinkInfo>,
    pub sources: Vec<AudioSourceInfo>,
    pub apps: Vec<AudioAppInfo>,
}

/// What an [`AudioSinkInfo`] says.
#[verifier::ext_equal]
pub struct SinkView {
    pub name: Seq<char>,
    pub description: Seq<char>,
    pub is_default: bool,
}

/// What an [`AudioSourceInfo`] says.
#[verifier::ext_equal]
pub struct SourceView {
    pub name: Seq<char>,
    pub description: Seq<char>,
    pub is_default: bool,
    pub is_monitor: bool,
}

/// What an [`AudioAppInfo`] says.
#[verifier::ext_equal]
pub struct AppView {
    pub index: u32,
    pub name: Seq<char>,
    pub media_name: Option<Seq<char>>,
    pub sink: Seq<char>,
}

/// What an [`AudioInventory`] says.
#[verifier::ext_equal]
pub struct InventoryView {
    pub sinks: Seq<SinkView>,
    pub sources: Seq<SourceView>,
    pub apps: Seq<AppView>,
}

impl View for AudioSinkInfo {
    type V = SinkView;

    open spec fn view(&self) -> SinkView {
        SinkView {
            name: self.name@,
            description: self.description@,
            is_default: self.is_default,
        }
    }
}

impl View for AudioSourceInfo {
    type V = SourceView;

    open spec fn view(&self) -> SourceView {
        SourceView {
            name: self.name@,
            description: self.description@,
            is_default: self.is_default,
            is_monitor: self.is_monitor,
        }
    }
}

impl View for AudioAppInfo {
    type V = AppView;

    open spec fn view(&self) -> AppView {
        AppView {
            index: self.index,
            name: self.name@,
            media_name: opt_view(self.media_name),
            sink: self.sink@,
        }
    }
}

/// What a list of sinks says.
pub open spec fn sink_views(v: Seq<AudioSinkInfo>) -> Seq<SinkView> {
    v.map_values(|s: AudioSinkInfo| s@)
}

/// What a list of sources says.
pub open spec fn source_views(v: Seq<AudioSourceInfo>) -> Seq<SourceView> {
    v.map_values(|s: AudioSourceInfo| s@)
}

/// What a list of applications says.
pub open spec fn app_views(v: Seq<AudioAppInfo>) -> Seq<AppView> {
    v.map_values(|a: AudioAppInfo| a@)
}

impl View for AudioInventory {
    type V = InventoryView;

    open spec fn view(&self) -> InventoryView {
        InventoryView {
            sinks: sink_views(self.sinks@),
            sources: source_views(self.sources@),
            apps: app_views(self.apps@),
        }
    }
}

/// Holds for a source that is a real input.
pub open spec fn is_mic() -> spec_fn(SourceView) -> bool {
    |s: SourceView| !s.is_monitor
}

impl Default for AudioInventory {
    fn default() -> (r: Self)
        ensures
            r@ == (InventoryView {
                sinks: Seq::empty(),
                sources: Seq::empty(),
                apps: Seq::empty(),
            }),
    {
        let r = AudioInventory { sinks: Vec::new(), sources: Vec::new(), apps: Vec::new() };
        assert(r@.sinks =~= Seq::empty());
        assert(r@.sources =~= Seq::empty());
        assert(r@.apps =~= Seq::empty());
        r
    }
}

impl AudioInventory {
    /// The real inputs, in order.
    pub fn mics(&self) -> (r: Vec<&AudioSourceInfo>)
        ensures
            r@.map_values(|s: &AudioSourceInfo| s@) == self@.sources.filter(is_mic()),
    {
        let mut out: Vec<&AudioSourceInfo> = Vec::new();
        let mut i: usize = 0;
        let ghost all = self@.sources;
        assert(all.take(0).filter(is_mic()) =~= Seq::<SourceView>::empty()) by {
            reveal(Seq::filter);
        }
        while i < self.sources.len()
            invariant
                i <= self.sources.len(),
                all == self@.sources,
                out@.map_values(|s: &AudioSourceInfo| s@) == all.take(i as int).filter(is_mic()),
            decreases self.sources.len() - i,
        {
            let ghost next = all.take(i as int + 1);
            let ghost before = out@;
            assert(next.drop_last() =~= all.take(i as int));
            assert(next.last() == self.sources@[i as int]@);
            assert(next.filter(is_mic()) == if is_mic()(next.last()) {
                next.drop_last().filter(is_mic()).push(next.last())
            } else {
                next.drop_last().filter(is_mic())
            }) by {
                reveal(Seq::filter);
            }
            if !self.sources[i].is_monitor {
                out.push(&self.sources[i]);
                assert(out@.map_values(|s: &AudioSourceInfo| s@) =~= before.map_values(
                    |s: &AudioSourceInfo| s@,
                ).push(self.sources@[i as int]@));
            }
            i = i + 1;
        }
        assert(all.take(all.len() as int) =~= all);
        out
    }
}

// ---------------------------------------------------------------------------
// Reading what pactl prints
// ---------------------------------------------------------------------------

/// The monitor source of a sink.
pub open spec fn monitor_of(sink: Seq<char>) -> Seq<char> {
    sink + ".monitor"@
}

/// Monitor source name for a sink.
pub fn sink_monitor_name(sink: &str) -> (r: String)
    ensures
        r@ == monitor_of(sink@),
{
    concat2(sink, ".monitor")
}

/// Index and name on a line of a short listing: its first two words, where the
/// first is a number.
pub open spec fn short_entry(line: Seq<char>) -> Option<(u32, Seq<char>)> {
    let w = words_of(line);
    if w.len() >= 2 && parsed_u32(w[0]) is Some {
        Some((parsed_u32(w[0])->0, w[1]))
    } else {
        None
    }
}

/// The entries on the lines of a short listing.
pub open spec fn short_entries(ls: Seq<Seq<char>>) -> Seq<(u32, Seq<char>)> {
    somes(ls.map_values(|l: Seq<char>| short_entry(l)))
}

/// What a list of indexed names says.
pub open spec fn entry_views(v: Seq<(u32, String)>) -> Seq<(u32, Seq<char>)> {
    v.map_values(|e: (u32, String)| (e.0, e.1@))
}

/// The lines of `pactl list short sinks` as index and name.
pub fn parse_short_sinks(text: &str) -> (r: Vec<(u32, String)>)
    ensures
        entry_views(r@) == short_entries(lines_of(text@)),
{
    let ls = lines(text);
    let mut out: Vec<(u32, String)> = Vec::new();
    let mut i: usize = 0;
    let ghost all = lines_of(text@);
    let ghost f = |l: Seq<char>| short_entry(l);
    assert(entry_views(out@) =~= somes(all.map_values(f).take(0)));
    while i < ls.len()
        invariant
            i <= ls.len(),
            views(ls@) == all,
            f == (|l: Seq<char>| short_entry(l)),
            entry_views(out@) == somes(all.map_values(f).take(i as int)),
        decreases ls.len() - i,
    {
        let ghost next = all.map_values(f).take(i as int + 1);
        let ghost before = out@;
        proof {
            assert(ls@.len() == all.len());
            assert(next.drop_last() =~= all.map_values(f).take(i as int));
            assert(all[i as int] == ls@[i as int]@);
            assert(next.last() == short_entry(ls@[i as int]@));
        }
        let mut w = split_whitespace(ls[i].as_str());
        assert(w@.len() == words_of(ls@[i as int]@).len());
        if w.len() >= 2 {
            assert(w@[0]@ == words_of(ls@[i as int]@)[0]);
            assert(w@[1]@ == words_of(ls@[i as int]@)[1]);
            if let Some(idx) = parse_u32(w[0].as_str()) {
                out.push((idx, w[1].clone()));
                assert(entry_views(out@) =~= entry_views(before).push((idx, w@[1]@)));
            }
        }
        i = i + 1;
    }
    assert(ls@.len() == all.len());
    assert(all.map_values(f).take(ls@.len() as int) =~= all.map_values(f));
    out
}

/// The lines of `pactl list short sources` as index and name.
pub fn parse_short_sources(text: &str) -> (r: Vec<(u32, String)>)
    ensures
        entry_views(r@) == short_entries(lines_of(text@)),
{
    parse_short_sinks(text)
}

/// A property value without the double quotes around it.
pub open spec fn unquoted(s: Seq<char>) -> Seq<char> {
    let t = trim_of(s);
    if t.len() >= 2 && t[0] == '"' && t.last() == '"' {
        t.subrange(1, t.len() - 1)
    } else {
        t
    }
}

fn unquote_prop(s: &str) -> (r: String)
    ensures
        r@ == unquoted(s@),
{
    let t = trim(s);
    let n: usize = t.unicode_len();
    if n >= 2 && t.get_char(0) == '"' && t.get_char(n - 1) == '"' {
        t.substring_char(1, n - 1).to_owned()
    } else {
        t.to_owned()
    }
}

/// The place of the last line that is a header, or less than zero.
pub open spec fn last_header(ls: Seq<Seq<char>>, header: spec_fn(Seq<char>) -> bool) -> int
    decreases ls.len(),
{
    if ls.len() == 0 {
        -1
    } else if header(ls.last()) {
        ls.len() - 1
    } else {
        last_header(ls.drop_last(), header)
    }
}

/// What follows `key` on the last of the lines that begins with it.
pub open spec fn last_value(ls: Seq<Seq<char>>, key: Seq<char>) -> Option<Seq<char>>
    decreases ls.len(),
{
    if ls.len() == 0 {
        None
    } else if after_prefix(trim_of(ls.last()), key) is Some {
        after_prefix(trim_of(ls.last()), key)
    } else {
        last_value(ls.drop_last(), key)
    }
}

/// A header of `pactl list sink-inputs`.
pub open spec fn input_header() -> spec_fn(Seq<char>) -> bool {
    |line: Seq<char>| after_prefix(trim_of(line), "Sink Input #"@) is Some
}

/// The index in a header of `pactl list sink-inputs`, where it is readable.
pub open spec fn header_index(line: Seq<char>) -> Option<u32> {
    parsed_u32(trim_of(after_prefix(trim_of(line), "Sink Input #"@)->0))
}

/// A property on the lines, without its quotes.
pub open spec fn property(ls: Seq<Seq<char>>, key: Seq<char>) -> Option<Seq<char>> {
    match last_value(ls, key) {
        Some(v) => Some(unquoted(v)),
        None => None,
    }
}

/// The name of a playing application: what it calls itself, else its media, else
/// its index.
pub open spec fn input_name(
    index: u32,
    app: Option<Seq<char>>,
    media: Option<Seq<char>>,
) -> Seq<char> {
    if app is Some && app->0.len() > 0 {
        app->0
    } else if media is Some {
        media->0
    } else {
        "sink-input-"@ + decimal(index as nat)
    }
}

/// The application that the lines below its header describe.
pub open spec fn described_input(index: u32, ls: Seq<Seq<char>>) -> AppView {
    let media = property(ls, "media.name = "@);
    AppView {
        index,
        name: input_name(index, property(ls, "application.name = "@), media),
        media_name: media,
        sink: match last_value(ls, "Sink:"@) {
            Some(v) => trim_of(v),
            None => Seq::empty(),
        },
    }
}

/// The playing applications on the lines of `pactl list sink-inputs`: one for each
/// header with a readable index, described by the lines up to the next header.
pub open spec fn inputs_of(ls: Seq<Seq<char>>) -> Seq<AppView>
    decreases ls.len(),
{
    let h = last_header(ls, input_header());
    if 0 <= h < ls.len() {
        inputs_of(ls.take(h)) + (match header_index(ls[h]) {
            Some(index) => seq![described_input(index, ls.skip(h + 1))],
            None => Seq::empty(),
        })
    } else {
        Seq::empty()
    }
}

proof fn lemma_last_header(ls: Seq<Seq<char>>, header: spec_fn(Seq<char>) -> bool)
    ensures
        -1 <= last_header(ls, header) < ls.len(),
        last_header(ls, header) >= 0 ==> header(ls[last_header(ls, header)]),
    decreases ls.len(),
{
    if ls.len() > 0 && !header(ls.last()) {
        lemma_last_header(ls.drop_last(), header);
    }
}

/// How far the reading of `pactl list sink-inputs` has come: the finished
/// entries, and what was read of the entry at hand.
#[verifier::ext_equal]
struct InputScan {
    done: Seq<AppView>,
    index: Option<u32>,
    sink: Seq<char>,
    app: Option<Seq<char>>,
    media: Option<Seq<char>>,
}

impl InputScan {
    spec fn start() -> InputScan {
        InputScan { done: Seq::empty(), index: None, sink: Seq::empty(), app: None, media: None }
    }

    spec fn flushed(self) -> InputScan {
        InputScan {
            done: match self.index {
                Some(i) => self.done.push(
                    AppView {
                        index: i,
                        name: input_name(i, self.app, self.media),
                        media_name: self.media,
                        sink: self.sink,
                    },
                ),
                None => self.done,
            },
            ..InputScan::start()
        }
    }

    spec fn line(self, line: Seq<char>) -> InputScan {
        let t = trim_of(line);
        if after_prefix(t, "Sink Input #"@) is Some {
            InputScan {
                index: parsed_u32(trim_of(after_prefix(t, "Sink Input #"@)->0)),
                ..self.flushed()
            }
        } else if self.index is None {
            self
        } else if after_prefix(t, "Sink:"@) is Some {
            InputScan { sink: trim_of(after_prefix(t, "Sink:"@)->0), ..self }
        } else if after_prefix(t, "application.name = "@) is Some {
            InputScan { app: Some(unquoted(after_prefix(t, "application.name = "@)->0)), ..self }
        } else if after_prefix(t, "media.name = "@) is Some {
            InputScan { media: Some(unquoted(after_prefix(t, "media.name = "@)->0)), ..self }
        } else {
            self
        }
    }

    spec fn after(ls: Seq<Seq<char>>) -> InputScan
        decreases ls.len(),
    {
        if ls.len() == 0 {
            InputScan::start()
        } else {
            InputScan::after(ls.drop_last()).line(ls.last())
        }
    }

    /// The scan has read `ls`: what comes before the last header is done, and the
    /// lines below it are those of the entry at hand.
    spec fn has_read(self, ls: Seq<Seq<char>>) -> bool {
        let h = last_header(ls, input_header());
        let below = ls.skip(h + 1);
        if h < 0 {
            self == InputScan::start()
        } else {
            &&& self.done == inputs_of(ls.take(h))
            &&& self.index == header_index(ls[h])
            &&& match self.index {
                Some(index) => {
                    &&& self.app == property(below, "application.name = "@)
                    &&& self.media == property(below, "media.name = "@)
                    &&& self.sink == described_input(index, below).sink
                },
                None => self == (InputScan { done: self.done, ..InputScan::start() }),
            }
        }
    }
}

/// No line begins with two of the keys.
proof fn lemma_input_keys(t: Seq<char>)
    ensures
        after_prefix(t, "Sink:"@) is Some ==> after_prefix(t, "application.name = "@) is None
            && after_prefix(t, "media.name = "@) is None,
        after_prefix(t, "application.name = "@) is Some ==> after_prefix(
            t,
            "media.name = "@,
        ) is None,
{
    reveal_strlit("Sink:");
    reveal_strlit("application.name = ");
    reveal_strlit("media.name = ");
    if after_prefix(t, "Sink:"@) is Some {
        assert(t[0] == "Sink:"@[0]);
    }
    if after_prefix(t, "application.name = "@) is Some {
        assert(t[0] == "application.name = "@[0]);
    }
    if after_prefix(t, "media.name = "@) is Some {
        assert(t[0] == "media.name = "@[0]);
    }
}

proof fn lemma_flushed(scan: InputScan, ls: Seq<Seq<char>>)
    requires
        scan.has_read(ls),
    ensures
        scan.flushed().done == inputs_of(ls),
{
    lemma_last_header(ls, input_header());
    let h = last_header(ls, input_header());
    if h >= 0 {
        match scan.index {
            Some(index) => {
                assert(scan.flushed().done =~= inputs_of(ls));
            },
            None => {
                assert(scan.flushed().done =~= inputs_of(ls));
            },
        }
    }
}

proof fn lemma_inputs(ls: Seq<Seq<char>>)
    ensures
        InputScan::after(ls).has_read(ls),
    decreases ls.len(),
{
    if ls.len() > 0 {
        let before = ls.drop_last();
        let line = ls.last();
        let scan = InputScan::after(before);
        let next = InputScan::after(ls);
        let h = last_header(ls, input_header());
        lemma_inputs(before);
        lemma_last_header(before, input_header());
        lemma_last_header(ls, input_header());
        if input_header()(line) {
            lemma_flushed(scan, before);
            assert(ls.take(h) =~= before);
            assert(ls.skip(h + 1) =~= Seq::<Seq<char>>::empty());
            assert(next =~= InputScan {
                done: inputs_of(before),
                index: header_index(line),
                ..InputScan::start()
            });
        } else if h >= 0 {
            lemma_input_keys(trim_of(line));
            let below = ls.skip(h + 1);
            assert(ls.take(h) =~= before.take(h));
            assert(below.drop_last() =~= before.skip(h + 1));
            assert(below.last() == line);
        }
    }
}

struct InputReader {
    done: Vec<AudioAppInfo>,
    index: Option<u32>,
    sink: String,
    app: Option<String>,
    media: Option<String>,
}

impl InputReader {
    spec fn scan(self) -> InputScan {
        InputScan {
            done: app_views(self.done@),
            index: self.index,
            sink: self.sink@,
            app: opt_view(self.app),
            media: opt_view(self.media),
        }
    }

    fn flush(&mut self)
        ensures
            final(self).scan() == old(self).scan().flushed(),
    {
        if let Some(i) = self.index {
            let app = self.app.take();
            let media = self.media.take();
            let name = match app {
                Some(a) if !a.as_str().is_empty() => a,
                _ => match &media {
                    Some(m) => m.clone(),
                    None => concat2("sink-input-", u64_to_string(i as u64).as_str()),
                },
            };
            let ghost before = self.done@;
            let entry = AudioAppInfo { index: i, name, media_name: media, sink: self.sink.clone() };
            assert(entry@ == (AppView {
                index: i,
                name: input_name(i, old(self).scan().app, old(self).scan().media),
                media_name: old(self).scan().media,
                sink: old(self).scan().sink,
            }));
            self.done.push(entry);
            assert(app_views(self.done@) =~= app_views(before).push(entry@));
        } else {
            self.app = None;
            self.media = None;
        }
        self.index = None;
        self.sink = String::new();
    }

    fn read(&mut self, line: &str)
        ensures
            final(self).scan() == old(self).scan().line(line@),
    {
        let t = trim(line);
        if let Some(rest) = strip_prefix(t, "Sink Input #") {
            self.flush();
            self.index = parse_u32(trim(rest));
            return ;
        }
        if self.index.is_none() {
            return ;
        }
        if let Some(rest) = strip_prefix(t, "Sink:") {
            self.sink = trim(rest).to_owned();
            return ;
        }
        if let Some(rest) = strip_prefix(t, "application.name = ") {
            self.app = Some(unquote_prop(rest));
            return ;
        }
        if let Some(rest) = strip_prefix(t, "media.name = ") {
            self.media = Some(unquote_prop(rest));
        }
    }
}

/// The playing applications in `pactl list sink-inputs`.
pub open spec fn listed_inputs(text: Seq<char>) -> Seq<AppView> {
    inputs_of(lines_of(text))
}

/// The playing applications in `pactl list sink-inputs`.
pub fn parse_sink_inputs(text: &str) -> (r: Vec<AudioAppInfo>)
    ensures
        app_views(r@) == listed_inputs(text@),
{
    let ls = lines(text);
    let mut reader = InputReader {
        done: Vec::new(),
        index: None,
        sink: String::new(),
        app: None,
        media: None,
    };
    let mut i: usize = 0;
    let ghost all = lines_of(text@);
    assert(reader.scan() =~= InputScan::start());
    assert(all.take(0) =~= Seq::<Seq<char>>::empty());
    while i < ls.len()
        invariant
            i <= ls.len(),
            views(ls@) == all,
            reader.scan() == InputScan::after(all.take(i as int)),
        decreases ls.len() - i,
    {
        proof {
            let next = all.take(i as int + 1);
            assert(ls@.len() == all.len());
            assert(next.drop_last() =~= all.take(i as int));
            assert(next.last() == ls@[i as int]@);
        }
        reader.read(ls[i].as_str());
        i = i + 1;
    }
    assert(ls@.len() == all.len());
    assert(all.take(ls@.len() as int) =~= all);
    proof {
        lemma_inputs(all);
        lemma_flushed(reader.scan(), all);
    }
    reader.flush();
    reader.done
}

/// A header of `pactl list sinks` or `sources`.
pub open spec fn device_header() -> spec_fn(Seq<char>) -> bool {
    |line: Seq<char>|
        has_prefix(trim_of(line), "Sink #"@) || has_prefix(trim_of(line), "Source #"@)
}

/// The device that the lines describe: its name, and its description where there
/// is one. Without a name there is none.
pub open spec fn described_device(ls: Seq<Seq<char>>) -> Seq<(Seq<char>, Seq<char>)> {
    match last_value(ls, "Name:"@) {
        Some(name) => seq![
            (
                trim_of(name),
                match last_value(ls, "Description:"@) {
                    Some(d) => trim_of(d),
                    None => Seq::empty(),
                },
            ),
        ],
        None => Seq::empty(),
    }
}

/// The devices on the lines of `pactl list sinks` or `sources`: one for each
/// stretch of lines between headers that gives a name.
pub open spec fn devices_of(ls: Seq<Seq<char>>) -> Seq<(Seq<char>, Seq<char>)>
    decreases ls.len(),
{
    let h = last_header(ls, device_header());
    if 0 <= h < ls.len() {
        devices_of(ls.take(h)) + described_device(ls.skip(h + 1))
    } else {
        described_device(ls)
    }
}

/// How far the reading of `pactl list sinks` or `sources` has come.
#[verifier::ext_equal]
struct DeviceScan {
    done: Seq<(Seq<char>, Seq<char>)>,
    name: Option<Seq<char>>,
    desc: Option<Seq<char>>,
}

impl DeviceScan {
    spec fn start() -> DeviceScan {
        DeviceScan { done: Seq::empty(), name: None, desc: None }
    }

    spec fn flushed(self) -> DeviceScan {
        DeviceScan {
            done: match self.name {
                Some(n) => self.done.push(
                    (
                        n,
                        match self.desc {
                            Some(d) => d,
                            None => Seq::empty(),
                        },
                    ),
                ),
                None => self.done,
            },
            name: None,
            desc: None,
        }
    }

    spec fn line(self, line: Seq<char>) -> DeviceScan {
        let t = trim_of(line);
        if has_prefix(t, "Sink #"@) || has_prefix(t, "Source #"@) {
            self.flushed()
        } else if after_prefix(t, "Name:"@) is Some {
            DeviceScan { name: Some(trim_of(after_prefix(t, "Name:"@)->0)), ..self }
        } else if after_prefix(t, "Description:"@) is Some {
            DeviceScan { desc: Some(trim_of(after_prefix(t, "Description:"@)->0)), ..self }
        } else {
            self
        }
    }

    spec fn after(ls: Seq<Seq<char>>) -> DeviceScan
        decreases ls.len(),
    {
        if ls.len() == 0 {
            DeviceScan::start()
        } else {
            DeviceScan::after(ls.drop_last()).line(ls.last())
        }
    }

    /// The scan has read `ls`.
    spec fn has_read(self, ls: Seq<Seq<char>>) -> bool {
        let h = last_header(ls, device_header());
        let below = ls.skip(h + 1);
        &&& self.done == (if h < 0 {
            Seq::empty()
        } else {
            devices_of(ls.take(h))
        })
        &&& self.name == trimmed(last_value(below, "Name:"@))
        &&& self.desc == trimmed(last_value(below, "Description:"@))
    }
}

spec fn trimmed(o: Option<Seq<char>>) -> Option<Seq<char>> {
    match o {
        Some(v) => Some(trim_of(v)),
        None => None,
    }
}

proof fn lemma_device_flushed(scan: DeviceScan, ls: Seq<Seq<char>>)
    requires
        scan.has_read(ls),
    ensures
        scan.flushed().done == devices_of(ls),
{
    lemma_last_header(ls, device_header());
    let h = last_header(ls, device_header());
    if h < 0 {
        assert(ls.skip(h + 1) =~= ls);
    }
    assert(scan.flushed().done =~= devices_of(ls));
}

proof fn lemma_devices(ls: Seq<Seq<char>>)
    ensures
        DeviceScan::after(ls).has_read(ls),
    decreases ls.len(),
{
    if ls.len() == 0 {
        assert(ls.skip(0) =~= ls);
    } else {
        let before = ls.drop_last();
        let line = ls.last();
        let h = last_header(ls, device_header());
        lemma_devices(before);
        lemma_last_header(before, device_header());
        lemma_last_header(ls, device_header());
        let below = ls.skip(h + 1);
        if device_header()(line) {
            lemma_device_flushed(DeviceScan::after(before), before);
            assert(ls.take(h) =~= before);
            assert(below =~= Seq::<Seq<char>>::empty());
        } else {
            reveal_strlit("Name:");
            reveal_strlit("Description:");
            let t = trim_of(line);
            if after_prefix(t, "Name:"@) is Some {
                assert(t[0] == "Name:"@[0]);
            }
            if after_prefix(t, "Description:"@) is Some {
                assert(t[0] == "Description:"@[0]);
            }
            if h >= 0 {
                assert(ls.take(h) =~= before.take(h));
            }
            assert(below.drop_last() =~= before.skip(h + 1));
            assert(below.last() == line);
        }
    }
}

/// What a list of name and description pairs says.
pub open spec fn pair_views(v: Seq<(String, String)>) -> Seq<(Seq<char>, Seq<char>)> {
    v.map_values(|e: (String, String)| (e.0@, e.1@))
}

struct DeviceReader {
    done: Vec<(String, String)>,
    name: Option<String>,
    desc: Option<String>,
}

impl DeviceReader {
    spec fn scan(self) -> DeviceScan {
        DeviceScan {
            done: pair_views(self.done@),
            name: opt_view(self.name),
            desc: opt_view(self.desc),
        }
    }

    fn flush(&mut self)
        ensures
            final(self).scan() == old(self).scan().flushed(),
    {
        let name = self.name.take();
        let desc = self.desc.take();
        if let Some(n) = name {
            let d = match desc {
                Some(d) => d,
                None => String::new(),
            };
            let ghost before = self.done@;
            let ghost e = (n@, d@);
            self.done.push((n, d));
            assert(pair_views(self.done@) =~= pair_views(before).push(e));
        }
    }

    fn read(&mut self, line: &str)
        ensures
            final(self).scan() == old(self).scan().line(line@),
    {
        let t = trim(line);
        if starts_with(t, "Sink #") || starts_with(t, "Source #") {
            self.flush();
            return ;
        }
        if let Some(rest) = strip_prefix(t, "Name:") {
            self.name = Some(trim(rest).to_owned());
            return ;
        }
        if let Some(rest) = strip_prefix(t, "Description:") {
            self.desc = Some(trim(rest).to_owned());
        }
    }
}

/// Name and description of each device in `pactl list sinks` or `sources`.
pub open spec fn listed_devices(text: Seq<char>) -> Seq<(Seq<char>, Seq<char>)> {
    devices_of(lines_of(text))
}

/// Name and description of each device in `pactl list sinks` or `sources`.
pub fn parse_device_descriptions(text: &str) -> (r: Vec<(String, String)>)
    ensures
        pair_views(r@) == listed_devices(text@),
{
    let ls = lines(text);
    let mut reader = DeviceReader { done: Vec::new(), name: None, desc: None };
    let mut i: usize = 0;
    let ghost all = lines_of(text@);
    assert(reader.scan() =~= DeviceScan::start());
    assert(all.take(0) =~= Seq::<Seq<char>>::empty());
    while i < ls.len()
        invariant
            i <= ls.len(),
            views(ls@) == all,
            reader.scan() == DeviceScan::after(all.take(i as int)),
        decreases ls.len() - i,
    {
        proof {
            let next = all.take(i as int + 1);
            assert(ls@.len() == all.len());
            assert(next.drop_last() =~= all.take(i as int));
            assert(next.last() == ls@[i as int]@);
        }
        reader.read(ls[i].as_str());
        i = i + 1;
    }
    assert(ls@.len() == all.len());
    assert(all.take(ls@.len() as int) =~= all);
    proof {
        lemma_devices(all);
        lemma_device_flushed(reader.scan(), all);
    }
    reader.flush();
    reader.done
}

/// Holds for a pair with the name `name`.
pub open spec fn named_pair(name: Seq<char>) -> spec_fn((Seq<char>, Seq<char>)) -> bool {
    |e: (Seq<char>, Seq<char>)| e.0 == name
}

/// The description of `name`: that of the first pair with the name, else the name.
pub open spec fn description_of(
    name: Seq<char>,
    descs: Seq<(Seq<char>, Seq<char>)>,
) -> Seq<char> {
    match first_where(descs, named_pair(name)) {
        Some(e) => e.1,
        None => name,
    }
}

fn describe(name: &str, descs: &Vec<(String, String)>) -> (r: String)
    ensures
        r@ == description_of(name@, pair_views(descs@)),
{
    let mut i: usize = 0;
    let ghost ds = pair_views(descs@);
    while i < descs.len()
        invariant
            i <= descs.len(),
            ds == pair_views(descs@),
            forall|k: int| 0 <= k < i ==> !named_pair(name@)(#[trigger] ds[k]),
        decreases descs.len() - i,
    {
        assert(ds[i as int] == (descs@[i as int].0@, descs@[i as int].1@));
        if str_eq(descs[i].0.as_str(), name) {
            proof {
                index_where_is(ds, named_pair(name@), i as int);
            }
            return descs[i].1.clone();
        }
        i = i + 1;
    }
    proof {
        index_where_is(ds, named_pair(name@), ds.len() as int);
    }
    name.to_owned()
}

/// The name that a short listing gives to `index`: that of its last entry for it.
pub open spec fn name_of_index(entries: Seq<(u32, Seq<char>)>, index: u32) -> Option<Seq<char>>
    decreases entries.len(),
{
    if entries.len() == 0 {
        None
    } else if entries.last().0 == index {
        Some(entries.last().1)
    } else {
        name_of_index(entries.drop_last(), index)
    }
}

fn lookup_index(entries: &Vec<(u32, String)>, index: u32) -> (r: Option<String>)
    ensures
        opt_view(r) == name_of_index(entry_views(entries@), index),
{
    let mut i: usize = entries.len();
    let ghost es = entry_views(entries@);
    assert(es.take(es.len() as int) =~= es);
    while i > 0
        invariant
            i <= entries.len(),
            es == entry_views(entries@),
            name_of_index(es, index) == name_of_index(es.take(i as int), index),
        decreases i,
    {
        proof {
            assert(es.take(i as int).drop_last() =~= es.take(i - 1));
            assert(es.take(i as int).last() == (entries@[i - 1].0, entries@[i - 1].1@));
        }
        if entries[i - 1].0 == index {
            return Some(entries[i - 1].1.clone());
        }
        i = i - 1;
    }
    None
}

/// A sink of a short listing.
pub open spec fn sink_entry(
    e: (u32, Seq<char>),
    default_sink: Seq<char>,
    descs: Seq<(Seq<char>, Seq<char>)>,
) -> SinkView {
    SinkView {
        name: e.1,
        description: description_of(e.1, descs),
        is_default: e.1 == trim_of(default_sink),
    }
}

/// A source of a short listing; monitors are told by their name.
pub open spec fn source_entry(
    e: (u32, Seq<char>),
    default_source: Seq<char>,
    descs: Seq<(Seq<char>, Seq<char>)>,
) -> SourceView {
    SourceView {
        name: e.1,
        description: description_of(e.1, descs),
        is_default: e.1 == trim_of(default_source),
        is_monitor: has_suffix(e.1, ".monitor"@),
    }
}

/// An application whose sink is given by name: an index is looked up.
pub open spec fn with_sink_name(a: AppView, entries: Seq<(u32, Seq<char>)>) -> AppView {
    AppView {
        sink: match parsed_u32(a.sink) {
            Some(i) => match name_of_index(entries, i) {
                Some(n) => n,
                None => a.sink,
            },
            None => a.sink,
        },
        ..a
    }
}

/// The inventory that the outputs of `pactl` describe.
pub open spec fn described_inventory(
    sinks_short: Seq<char>,
    sources_short: Seq<char>,
    sink_inputs: Seq<char>,
    default_sink: Seq<char>,
    default_source: Seq<char>,
    sink_descs: Seq<(Seq<char>, Seq<char>)>,
    source_descs: Seq<(Seq<char>, Seq<char>)>,
) -> InventoryView {
    let sinks = short_entries(lines_of(sinks_short));
    let sources = short_entries(lines_of(sources_short));
    InventoryView {
        sinks: sinks.map_values(
            |e: (u32, Seq<char>)| sink_entry(e, default_sink, sink_descs),
        ),
        sources: sources.map_values(
            |e: (u32, Seq<char>)| source_entry(e, default_source, source_descs),
        ),
        apps: listed_inputs(sink_inputs).map_values(|a: AppView| with_sink_name(a, sinks)),
    }
}

/// Build the inventory from the texts that `pactl` printed.
pub fn inventory_from_pactl_text(
    sinks_short: &str,
    sources_short: &str,
    sink_inputs: &str,
    default_sink: &str,
    default_source: &str,
    sink_descs: &Vec<(String, String)>,
    source_descs: &Vec<(String, String)>,
) -> (r: AudioInventory)
    ensures
        r@ == described_inventory(
            sinks_short@,
            sources_short@,
            sink_inputs@,
            default_sink@,
            default_source@,
            pair_views(sink_descs@),
            pair_views(source_descs@),
        ),
{
    let def_sink = trim(default_sink);
    let def_src = trim(default_source);
    let sink_entries = parse_short_sinks(sinks_short);
    let source_entries = parse_short_sources(sources_short);
    let mut sinks: Vec<AudioSinkInfo> = Vec::new();
    let mut i: usize = 0;
    while i < sink_entries.len()
        invariant
            i <= sink_entries.len(),
            sinks.len() == i,
            def_sink@ == trim_of(default_sink@),
            forall|k: int|
                0 <= k < i ==> #[trigger] sinks@[k]@ == sink_entry(
                    entry_views(sink_entries@)[k],
                    default_sink@,
                    pair_views(sink_descs@),
                ),
        decreases sink_entries.len() - i,
    {
        let name = sink_entries[i].1.as_str();
        let entry = AudioSinkInfo {
            is_default: str_eq(name, def_sink),
            description: describe(name, sink_descs),
            name: name.to_owned(),
        };
        sinks.push(entry);
        i = i + 1;
    }
    let mut sources: Vec<AudioSourceInfo> = Vec::new();
    let mut j: usize = 0;
    while j < source_entries.len()
        invariant
            j <= source_entries.len(),
            sources.len() == j,
            def_src@ == trim_of(default_source@),
            forall|k: int|
                0 <= k < j ==> #[trigger] sources@[k]@ == source_entry(
                    entry_views(source_entries@)[k],
                    default_source@,
                    pair_views(source_descs@),
                ),
        decreases source_entries.len() - j,
    {
        let name = source_entries[j].1.as_str();
        let entry = AudioSourceInfo {
            is_default: str_eq(name, def_src),
            is_monitor: ends_with(name, ".monitor"),
            description: describe(name, source_descs),
            name: name.to_owned(),
        };
        sources.push(entry);
        j = j + 1;
    }
    let raw = parse_sink_inputs(sink_inputs);
    let mut apps: Vec<AudioAppInfo> = Vec::new();
    let mut n: usize = 0;
    while n < raw.len()
        invariant
            n <= raw.len(),
            apps.len() == n,
            forall|k: int|
                0 <= k < n ==> #[trigger] apps@[k]@ == with_sink_name(
                    raw@[k]@,
                    entry_views(sink_entries@),
                ),
        decreases raw.len() - n,
    {
        let app = &raw[n];
        let sink = match parse_u32(app.sink.as_str()) {
            Some(idx) => match lookup_index(&sink_entries, idx) {
                Some(name) => name,
                None => app.sink.clone(),
            },
            None => app.sink.clone(),
        };
        apps.push(
            AudioAppInfo {
                index: app.index,
                name: app.name.clone(),
                media_name: clone_opt(&app.media_name),
                sink,
            },
        );
        n = n + 1;
    }
    let r = AudioInventory { sinks, sources, apps };
    proof {
        let want = described_inventory(
            sinks_short@,
            sources_short@,
            sink_inputs@,
            default_sink@,
            default_source@,
            pair_views(sink_descs@),
            pair_views(source_descs@),
        );
        assert(entry_views(sink_entries@).len() == sink_entries.len());
        assert(entry_views(source_entries@).len() == source_entries.len());
        assert(app_views(raw@).len() == raw.len());
        assert(r@.sinks =~= want.sinks);
        assert(r@.sources =~= want.sources);
        assert forall|k: int| 0 <= k < want.apps.len() implies r@.apps[k] == want.apps[k] by {
            assert(app_views(raw@)[k] == raw@[k]@);
        }
        assert(r@.apps =~= want.apps);
    }
    r
}

// ---------------------------------------------------------------------------
// Planning the capture
// ---------------------------------------------------------------------------

/// An application moved off its sink, and the sink to put it back on.
#[derive(Debug, Clone, PartialEq, Eq)]
pub struct MovedApp {
    pub index: u32,
    pub original_sink: String,
}

impl View for MovedApp {
    type V = (u32, Seq<char>);

    open spec fn view(&self) -> (u32, Seq<char>) {
        (self.index, self.original_sink@)
    }
}

/// What a list of moved applications says.
pub open spec fn moved_views(v: Seq<MovedApp>) -> Seq<(u32, Seq<char>)> {
    v.map_values(|m: MovedApp| m@)
}

/// What went wrong with audio.
#[derive(Debug, Clone, PartialEq, Eq)]
pub enum AudioError {
    PactlMissing,
    Message(String),
}

/// What an [`AudioError`] says.
#[verifier::ext_equal]
pub enum AudioErrorView {
    PactlMissing,
    Message(Seq<char>),
}

impl View for AudioError {
    type V = AudioErrorView;

    open spec fn view(&self) -> AudioErrorView {
        match self {
            AudioError::PactlMissing => AudioErrorView::PactlMissing,
            AudioError::Message(m) => AudioErrorView::Message(m@),
        }
    }
}

impl AudioErrorView {
    /// The message shown for the error.
    pub open spec fn text(self) -> Seq<char> {
        match self {
            AudioErrorView::PactlMissing => "pactl not available"@,
            AudioErrorView::Message(m) => "audio: "@ + m,
        }
    }
}

impl AudioError {
    /// The message shown for the error.
    pub fn to_text(&self) -> (r: String)
        ensures
            r@ == self@.text(),
    {
        match self {
            AudioError::PactlMissing => "pactl not available".to_owned(),
            AudioError::Message(m) => concat2("audio: ", m.as_str()),
        }
    }
}

/// How a plan is captured.
#[derive(Debug, Clone, PartialEq, Eq)]
pub enum CaptureRecipe {
    Nothing,
    /// A single existing source (monitor or microphone).
    Direct(String),
    /// A null-sink mix of these sources and of applications moved onto it.
    Mix {
        feed_sources: Vec<String>,
        /// Applications to move onto the null sink.
        apps: Vec<MovedApp>,
        /// Sink on which the moved applications stay audible.
        hear_sink: Option<String>,
    },
}

/// What a [`CaptureRecipe`] says.
#[verifier::ext_equal]
pub enum RecipeView {
    Nothing,
    Direct(Seq<char>),
    Mix { feeds: Seq<Seq<char>>, apps: Seq<(u32, Seq<char>)>, hear: Option<Seq<char>> },
}

impl View for CaptureRecipe {
    type V = RecipeView;

    open spec fn view(&self) -> RecipeView {
        match self {
            CaptureRecipe::Nothing => RecipeView::Nothing,
            CaptureRecipe::Direct(s) => RecipeView::Direct(s@),
            CaptureRecipe::Mix { feed_sources, apps, hear_sink } => RecipeView::Mix {
                feeds: views(feed_sources@),
                apps: moved_views(apps@),
                hear: opt_view(*hear_sink),
            },
        }
    }
}

/// Holds for an application with the name `want`, up to case.
pub open spec fn app_is(want: Seq<char>) -> spec_fn(AppView) -> bool {
    |a: AppView| same_ignoring_case(a.name, want)
}

/// Holds for an application whose name or media contains `want`, up to case.
pub open spec fn app_mentions(want: Seq<char>) -> spec_fn(AppView) -> bool {
    |a: AppView|
        has_ignoring_case(a.name, want) || (a.media_name is Some && has_ignoring_case(
            a.media_name->0,
            want,
        ))
}

/// The application that `want` means: the first with that name, else the first
/// that mentions it.
pub open spec fn matching_app(apps: Seq<AppView>, want: Seq<char>) -> Option<AppView> {
    match first_where(apps, app_is(want)) {
        Some(a) => Some(a),
        None => first_where(apps, app_mentions(want)),
    }
}

fn find_app<'a>(inv: &'a AudioInventory, want: &str) -> (r: Option<&'a AudioAppInfo>)
    ensures
        match r {
            Some(a) => matching_app(inv@.apps, want@) == Some(a@),
            None => matching_app(inv@.apps, want@) is None,
        },
{
    let ghost apps = inv@.apps;
    let mut i: usize = 0;
    while i < inv.apps.len()
        invariant
            i <= inv.apps.len(),
            apps == inv@.apps,
            forall|k: int| 0 <= k < i ==> !app_is(want@)(#[trigger] apps[k]),
        decreases inv.apps.len() - i,
    {
        assert(apps[i as int] == inv.apps@[i as int]@);
        if eq_ignore_ascii_case(inv.apps[i].name.as_str(), want) {
            proof {
                index_where_is(apps, app_is(want@), i as int);
            }
            return Some(&inv.apps[i]);
        }
        i = i + 1;
    }
    proof {
        index_where_is(apps, app_is(want@), apps.len() as int);
    }
    let mut j: usize = 0;
    while j < inv.apps.len()
        invariant
            j <= inv.apps.len(),
            apps == inv@.apps,
            first_where(apps, app_is(want@)) is None,
            forall|k: int| 0 <= k < j ==> !app_mentions(want@)(#[trigger] apps[k]),
        decreases inv.apps.len() - j,
    {
        assert(apps[j as int] == inv.apps@[j as int]@);
        let in_media = match &inv.apps[j].media_name {
            Some(m) => contains_ignore_ascii_case(m.as_str(), want),
            None => false,
        };
        if contains_ignore_ascii_case(inv.apps[j].name.as_str(), want) || in_media {
            proof {
                index_where_is(apps, app_mentions(want@), j as int);
            }
            return Some(&inv.apps[j]);
        }
        j = j + 1;
    }
    proof {
        index_where_is(apps, app_mentions(want@), apps.len() as int);
    }
    None
}

/// The microphone source of a plan: the named one, else the default source
/// unless that is a monitor, else the first real input; empty if there is none.
pub open spec fn mic_source(
    plan: PlanView,
    inv: InventoryView,
    default_source: Seq<char>,
) -> Seq<char> {
    match plan.mic_device {
        Some(d) => d,
        None => if default_source.len() > 0 && !has_suffix(default_source, ".monitor"@) {
            default_source
        } else {
            match first_where(inv.sources, is_mic()) {
                Some(s) => s.name,
                None => Seq::empty(),
            }
        },
    }
}

/// The sink whose sound a plan for everything captures.
pub open spec fn plan_sink(plan: PlanView, default_sink: Seq<char>) -> Seq<char> {
    match plan.sink {
        Some(s) => s,
        None => default_sink,
    }
}

/// The sink on which a moved application was playing.
pub open spec fn app_sink(app: AppView, default_sink: Seq<char>) -> Seq<char> {
    if app.sink.len() == 0 {
        default_sink
    } else {
        app.sink
    }
}

/// The recipe for a normalized plan that records something.
///
/// One source alone is captured as it is. Two sources are mixed, and an
/// application always goes through a mix, so that it stays audible.
pub open spec fn recipe_for(
    plan: PlanView,
    inv: InventoryView,
    default_sink: Seq<char>,
    default_source: Seq<char>,
) -> Result<RecipeView, AudioErrorView> {
    let mic = mic_source(plan, inv, default_source);
    let mic_feeds = if plan.mic {
        seq![mic]
    } else {
        Seq::empty()
    };
    let no_mic = plan.mic && mic.len() == 0;
    let no_mic_error = AudioErrorView::Message("no microphone source found"@);
    match plan.system {
        SystemAudioMode::Off => if no_mic {
            Err(no_mic_error)
        } else {
            Ok(RecipeView::Direct(mic))
        },
        SystemAudioMode::All => {
            let sink = plan_sink(plan, default_sink);
            if sink.len() == 0 {
                Err(AudioErrorView::Message("no default sink for system audio"@))
            } else if no_mic {
                Err(no_mic_error)
            } else if plan.mic {
                Ok(
                    RecipeView::Mix {
                        feeds: seq![monitor_of(sink), mic],
                        apps: Seq::empty(),
                        hear: None,
                    },
                )
            } else {
                Ok(RecipeView::Direct(monitor_of(sink)))
            }
        },
        SystemAudioMode::App => match plan.app {
            None => Err(AudioErrorView::Message("app audio selected but no app name"@)),
            Some(want) => match matching_app(inv.apps, want) {
                None => Err(
                    AudioErrorView::Message(
                        "no playing app matching \""@ + want
                            + "\" (start playback and retry)"@,
                    ),
                ),
                Some(app) => if no_mic {
                    Err(no_mic_error)
                } else {
                    Ok(
                        RecipeView::Mix {
                            feeds: mic_feeds,
                            apps: seq![(app.index, app_sink(app, default_sink))],
                            hear: Some(app_sink(app, default_sink)),
                        },
                    )
                },
            },
        },
    }
}

/// The recipe for a plan; a plan that records nothing needs none.
pub open spec fn capture_recipe(
    plan: PlanView,
    inv: InventoryView,
    default_sink: Seq<char>,
    default_source: Seq<char>,
) -> Result<RecipeView, AudioErrorView> {
    if plan.records() {
        recipe_for(plan.normal(), inv, default_sink, default_source)
    } else {
        Ok(RecipeView::Nothing)
    }
}

/// The views of a result of planning.
pub open spec fn recipe_result(
    r: Result<CaptureRecipe, AudioError>,
) -> Result<RecipeView, AudioErrorView> {
    match r {
        Ok(x) => Ok(x@),
        Err(e) => Err(e@),
    }
}

fn choose_mic(plan: &AudioPlan, inv: &AudioInventory, default_source: &str) -> (r: String)
    ensures
        r@ == mic_source(plan@, inv@, default_source@),
{
    if let Some(d) = &plan.mic_device {
        return d.clone();
    }
    if !default_source.is_empty() && !ends_with(default_source, ".monitor") {
        return default_source.to_owned();
    }
    let ghost sources = inv@.sources;
    let mut i: usize = 0;
    while i < inv.sources.len()
        invariant
            i <= inv.sources.len(),
            sources == inv@.sources,
            plan.mic_device is None,
            default_source@.len() == 0 || has_suffix(default_source@, ".monitor"@),
            forall|k: int| 0 <= k < i ==> !is_mic()(#[trigger] sources[k]),
        decreases inv.sources.len() - i,
    {
        assert(sources[i as int] == inv.sources@[i as int]@);
        if !inv.sources[i].is_monitor {
            proof {
                index_where_is(sources, is_mic(), i as int);
            }
            return inv.sources[i].name.clone();
        }
        i = i + 1;
    }
    proof {
        index_where_is(sources, is_mic(), sources.len() as int);
    }
    String::new()
}

/// Turn the plan and the inventory into a recipe, without side effects.
pub fn plan_capture(
    plan: &AudioPlan,
    inv: &AudioInventory,
    default_sink: &str,
    default_source: &str,
) -> (r: Result<CaptureRecipe, AudioError>)
    ensures
        recipe_result(r) == capture_recipe(plan@, inv@, default_sink@, default_source@),
{
    if !plan.enabled() {
        return Ok(CaptureRecipe::Nothing);
    }
    let plan = plan.clone().normalized();
    let mut feeds: Vec<String> = Vec::new();
    let mut apps: Vec<MovedApp> = Vec::new();
    let mut hear_sink: Option<String> = None;
    match plan.system {
        SystemAudioMode::Off => {},
        SystemAudioMode::All => {
            let sink = match &plan.sink {
                Some(s) => s.as_str(),
                None => default_sink,
            };
            if sink.is_empty() {
                return Err(AudioError::Message("no default sink for system audio".to_owned()));
            }
            feeds.push(sink_monitor_name(sink));
        },
        SystemAudioMode::App => {
            let want = match &plan.app {
                Some(a) => a.as_str(),
                None => {
                    return Err(
                        AudioError::Message("app audio selected but no app name".to_owned()),
                    );
                },
            };
            let app = match find_app(inv, want) {
                Some(a) => a,
                None => {
                    return Err(
                        AudioError::Message(
                            concat3(
                                "no playing app matching \"",
                                want,
                                "\" (start playback and retry)",
                            ),
                        ),
                    );
                },
            };
            let original = if app.sink.as_str().is_empty() {
                default_sink.to_owned()
            } else {
                app.sink.clone()
            };
            apps.push(MovedApp { index: app.index, original_sink: original.clone() });
            hear_sink = Some(original);
        },
    }
    if plan.mic {
        let src = choose_mic(&plan, inv, default_source);
        if src.as_str().is_empty() {
            return Err(AudioError::Message("no microphone source found".to_owned()));
        }
        feeds.push(src);
    }
    if feeds.len() == 1 && apps.len() == 0 {
        let one = feeds[0].clone();
        return Ok(CaptureRecipe::Direct(one));
    }
    let r = CaptureRecipe::Mix { feed_sources: feeds, apps, hear_sink };
    proof {
        match recipe_for(plan@, inv@, default_sink@, default_source@) {
            Ok(RecipeView::Mix { feeds: f, apps: a, hear: _h }) => {
                assert(r@->feeds =~= f);
                assert(r@->apps =~= a);
            },
            _ => {},
        }
    }
    Ok(r)
}

/// Whether two sources or an application are mixed: exactly then the recipe
/// builds a mix; one source is captured as it is.
pub proof fn mix_only_where_needed(
    plan: PlanView,
    inv: InventoryView,
    default_sink: Seq<char>,
    default_source: Seq<char>,
)
    ensures
        capture_recipe(plan, inv, default_sink, default_source) matches Ok(r) ==> {
            &&& r is Nothing <==> !plan.records()
            &&& r is Mix <==> plan.system == SystemAudioMode::App || (plan.system
                == SystemAudioMode::All && plan.mic)
        },
{
}

/// `-aDEVICE` in one argument; nothing for no device or a blank one.
pub fn audio_argv_flag(device: Option<&str>) -> (r: Option<String>)
    ensures
        opt_view(r) == (match cleaned(opt_str_view(device)) {
            Some(d) => Some("-a"@ + d),
            None => None,
        }),
{
    match clean(device) {
        Some(d) => Some(concat2("-a", d.as_str())),
        None => None,
    }
}

// ---------------------------------------------------------------------------
// Session
// ---------------------------------------------------------------------------

/// Live routing created for a recording; it is torn down on stop.
#[derive(Debug, Clone, PartialEq, Eq)]
pub struct AudioSession {
    /// Source to record from.
    pub capture_source: String,
    /// Loaded modules, in load order.
    pub module_ids: Vec<u32>,
    pub moved_apps: Vec<MovedApp>,
}

/// What an [`AudioSession`] says.
#[verifier::ext_equal]
pub struct SessionView {
    pub capture_source: Seq<char>,
    pub module_ids: Seq<u32>,
    pub moved_apps: Seq<(u32, Seq<char>)>,
}

impl View for AudioSession {
    type V = SessionView;

    open spec fn view(&self) -> SessionView {
        SessionView {
            capture_source: self.capture_source@,
            module_ids: self.module_ids@,
            moved_apps: moved_views(self.moved_apps@),
        }
    }
}

impl AudioSession {
    /// Whether the session changed no routing.
    pub fn is_empty_setup(&self) -> (r: bool)
        ensures
            r == (self@.module_ids.len() == 0 && self@.moved_apps.len() == 0),
    {
        self.module_ids.len() == 0 && self.moved_apps.len() == 0
    }
}

} // verus!
