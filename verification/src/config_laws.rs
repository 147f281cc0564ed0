//! Laws of the settings: what a document says is what is in force, setting by
//! setting.

use vstd::prelude::*;
use vstd::string::*;

use crate::audio::{PlanView, SystemAudioMode};
use crate::config::{configured, ConfigView};
use crate::document::{value_at, TomlView};
use crate::text::trim_of;

verus! {

/// The document has `value` under `key`, the first time that the key occurs.
pub open spec fn says(doc: Seq<(Seq<char>, TomlView)>, key: Seq<char>, value: TomlView) -> bool {
    exists|i: int|
        {
            &&& 0 <= i < doc.len()
            &&& #[trigger] doc[i] == (key, value)
            &&& forall|j: int| 0 <= j < i ==> (#[trigger] doc[j]).0 != key
        }
}

/// The document does not have `key`.
pub open spec fn silent_on(doc: Seq<(Seq<char>, TomlView)>, key: Seq<char>) -> bool {
    forall|i: int| 0 <= i < doc.len() ==> (#[trigger] doc[i]).0 != key
}

/// `path` is the directory `dir`, below `cwd` unless it starts at the root; with no
/// name it is `Videos` there.
pub open spec fn is_below(path: Seq<char>, dir: Seq<char>, cwd: Seq<char>) -> bool {
    let name = if dir.len() == 0 {
        "Videos"@
    } else {
        dir
    };
    if name[0] == '/' {
        path == name
    } else if cwd.len() == 0 || cwd.last() == '/' {
        path == cwd + name
    } else {
        path == cwd + seq!['/'] + name
    }
}

proof fn lemma_says(doc: Seq<(Seq<char>, TomlView)>, key: Seq<char>, value: TomlView)
    requires
        says(doc, key, value),
    ensures
        value_at(doc, key) == Some(value),
    decreases doc.len(),
{
    let i = choose|i: int|
        {
            &&& 0 <= i < doc.len()
            &&& #[trigger] doc[i] == (key, value)
            &&& forall|j: int| 0 <= j < i ==> (#[trigger] doc[j]).0 != key
        };
    if i > 0 {
        let rest = doc.drop_first();
        assert(rest[i - 1] == (key, value));
        assert forall|j: int| 0 <= j < i - 1 implies (#[trigger] rest[j]).0 != key by {
            assert(rest[j] == doc[j + 1]);
        }
        lemma_says(rest, key, value);
    }
}

proof fn lemma_silent(doc: Seq<(Seq<char>, TomlView)>, key: Seq<char>)
    requires
        silent_on(doc, key),
    ensures
        value_at(doc, key) is None,
    decreases doc.len(),
{
    if doc.len() > 0 {
        let rest = doc.drop_first();
        assert forall|j: int| 0 <= j < rest.len() implies (#[trigger] rest[j]).0 != key by {
            assert(rest[j] == doc[j + 1]);
        }
        lemma_silent(rest, key);
    }
}

/// Each setting that a document has is in force under its own name, and each that
/// it does not have is that of the defaults.
pub proof fn settings_are_in_force(
    doc: Seq<(Seq<char>, TomlView)>,
    defaults: ConfigView,
    cwd: Seq<char>,
    c: ConfigView,
)
    requires
        configured(Ok(doc), defaults, cwd) == Ok::<ConfigView, Seq<char>>(c),
    ensures
        forall|s: Seq<char>| #[trigger] says(doc, "fullscreen_output"@, TomlView::Text(s)) ==> c.fullscreen_output == Some(s),
        forall|s: Seq<char>| #[trigger] says(doc, "audio_sink"@, TomlView::Text(s)) ==> c.audio_sink == Some(s),
        forall|s: Seq<char>| #[trigger] says(doc, "audio_app"@, TomlView::Text(s)) ==> c.audio_app == Some(s),
        forall|s: Seq<char>| #[trigger] says(doc, "mic_device"@, TomlView::Text(s)) ==> c.mic_device == Some(s),
        forall|b: bool| #[trigger] says(doc, "audio_default"@, TomlView::Boolean(b)) ==> c.audio_default == b,
        forall|b: bool| #[trigger] says(doc, "copy_path"@, TomlView::Boolean(b)) ==> c.copy_path == b,
        forall|b: bool| #[trigger] says(doc, "notify"@, TomlView::Boolean(b)) ==> c.notify == b,
        forall|b: bool| #[trigger] says(doc, "notify_on_start_cli"@, TomlView::Boolean(b)) ==> c.notify_on_start_cli == b,
        forall|b: bool| #[trigger] says(doc, "mic_default"@, TomlView::Boolean(b)) ==> c.mic_default == b,
        forall|n: i64| #[trigger] says(doc, "stop_timeout_ms"@, TomlView::Integer(n)) ==> c.stop_timeout_ms == n,
        forall|n: i64| #[trigger] says(doc, "stop_term_timeout_ms"@, TomlView::Integer(n)) ==> c.stop_term_timeout_ms == n,
        forall|n: i64| #[trigger] says(doc, "one_fps"@, TomlView::Integer(n)) ==> c.one_fps is Some
            && c.one_fps->0 == n,
        says(doc, "system_audio"@, TomlView::Text("off"@)) ==> c.system_audio == Some(
            SystemAudioMode::Off,
        ),
        says(doc, "system_audio"@, TomlView::Text("all"@)) ==> c.system_audio == Some(
            SystemAudioMode::All,
        ),
        says(doc, "system_audio"@, TomlView::Text("app"@)) ==> c.system_audio == Some(
            SystemAudioMode::App,
        ),
        silent_on(doc, "fullscreen_output"@) ==> c.fullscreen_output == defaults.fullscreen_output,
        silent_on(doc, "audio_sink"@) ==> c.audio_sink == defaults.audio_sink,
        silent_on(doc, "audio_app"@) ==> c.audio_app == defaults.audio_app,
        silent_on(doc, "mic_device"@) ==> c.mic_device == defaults.mic_device,
        silent_on(doc, "audio_default"@) ==> c.audio_default == defaults.audio_default,
        silent_on(doc, "copy_path"@) ==> c.copy_path == defaults.copy_path,
        silent_on(doc, "notify"@) ==> c.notify == defaults.notify,
        silent_on(doc, "notify_on_start_cli"@) ==> c.notify_on_start_cli == defaults.notify_on_start_cli,
        silent_on(doc, "mic_default"@) ==> c.mic_default == defaults.mic_default,
        silent_on(doc, "stop_timeout_ms"@) ==> c.stop_timeout_ms == defaults.stop_timeout_ms,
        silent_on(doc, "stop_term_timeout_ms"@) ==> c.stop_term_timeout_ms == defaults.stop_term_timeout_ms,
        silent_on(doc, "one_fps"@) ==> c.one_fps == defaults.one_fps,
        silent_on(doc, "system_audio"@) ==> c.system_audio == defaults.system_audio,
        forall|s: Seq<char>| #[trigger] says(doc, "output_dir"@, TomlView::Text(s))
            ==> is_below(c.output_dir, s, cwd),
        silent_on(doc, "output_dir"@) ==> is_below(c.output_dir, defaults.output_dir, cwd),
{
    reveal_strlit("off");
    reveal_strlit("all");
    reveal_strlit("app");
    reveal_strlit("Videos");
    assert("off"@.len() == 3 && "off"@[0] == 'o' && "all"@[0] == 'a' && "all"@[1] == 'l'
        && "app"@[1] == 'p');
    assert forall|s: Seq<char>| #[trigger] says(doc, "fullscreen_output"@, TomlView::Text(s)) implies value_at(
        doc,
        "fullscreen_output"@,
    ) == Some(TomlView::Text(s)) by {
        lemma_says(doc, "fullscreen_output"@, TomlView::Text(s));
    }
    assert forall|s: Seq<char>| #[trigger] says(doc, "audio_sink"@, TomlView::Text(s)) implies value_at(
        doc,
        "audio_sink"@,
    ) == Some(TomlView::Text(s)) by {
        lemma_says(doc, "audio_sink"@, TomlView::Text(s));
    }
    assert forall|s: Seq<char>| #[trigger] says(doc, "audio_app"@, TomlView::Text(s)) implies value_at(
        doc,
        "audio_app"@,
    ) == Some(TomlView::Text(s)) by {
        lemma_says(doc, "audio_app"@, TomlView::Text(s));
    }
    assert forall|s: Seq<char>| #[trigger] says(doc, "mic_device"@, TomlView::Text(s)) implies value_at(
        doc,
        "mic_device"@,
    ) == Some(TomlView::Text(s)) by {
        lemma_says(doc, "mic_device"@, TomlView::Text(s));
    }
    assert forall|s: Seq<char>| #[trigger] says(doc, "output_dir"@, TomlView::Text(s)) implies value_at(
        doc,
        "output_dir"@,
    ) == Some(TomlView::Text(s)) by {
        lemma_says(doc, "output_dir"@, TomlView::Text(s));
    }
    assert forall|b: bool| #[trigger] says(doc, "audio_default"@, TomlView::Boolean(b)) implies value_at(
        doc,
        "audio_default"@,
    ) == Some(TomlView::Boolean(b)) by {
        lemma_says(doc, "audio_default"@, TomlView::Boolean(b));
    }
    assert forall|b: bool| #[trigger] says(doc, "copy_path"@, TomlView::Boolean(b)) implies value_at(
        doc,
        "copy_path"@,
    ) == Some(TomlView::Boolean(b)) by {
        lemma_says(doc, "copy_path"@, TomlView::Boolean(b));
    }
    assert forall|b: bool| #[trigger] says(doc, "notify"@, TomlView::Boolean(b)) implies value_at(
        doc,
        "notify"@,
    ) == Some(TomlView::Boolean(b)) by {
        lemma_says(doc, "notify"@, TomlView::Boolean(b));
    }
    assert forall|b: bool| #[trigger] says(doc, "notify_on_start_cli"@, TomlView::Boolean(b)) implies value_at(
        doc,
        "notify_on_start_cli"@,
    ) == Some(TomlView::Boolean(b)) by {
        lemma_says(doc, "notify_on_start_cli"@, TomlView::Boolean(b));
    }
    assert forall|b: bool| #[trigger] says(doc, "mic_default"@, TomlView::Boolean(b)) implies value_at(
        doc,
        "mic_default"@,
    ) == Some(TomlView::Boolean(b)) by {
        lemma_says(doc, "mic_default"@, TomlView::Boolean(b));
    }
    assert forall|n: i64| #[trigger] says(doc, "stop_timeout_ms"@, TomlView::Integer(n)) implies value_at(
        doc,
        "stop_timeout_ms"@,
    ) == Some(TomlView::Integer(n)) by {
        lemma_says(doc, "stop_timeout_ms"@, TomlView::Integer(n));
    }
    assert forall|n: i64| #[trigger] says(doc, "stop_term_timeout_ms"@, TomlView::Integer(n)) implies value_at(
        doc,
        "stop_term_timeout_ms"@,
    ) == Some(TomlView::Integer(n)) by {
        lemma_says(doc, "stop_term_timeout_ms"@, TomlView::Integer(n));
    }
    assert forall|n: i64| #[trigger] says(doc, "one_fps"@, TomlView::Integer(n)) implies value_at(
        doc,
        "one_fps"@,
    ) == Some(TomlView::Integer(n)) by {
        lemma_says(doc, "one_fps"@, TomlView::Integer(n));
    }
    if says(doc, "system_audio"@, TomlView::Text("off"@)) {
        lemma_says(doc, "system_audio"@, TomlView::Text("off"@));
    }
    if says(doc, "system_audio"@, TomlView::Text("all"@)) {
        lemma_says(doc, "system_audio"@, TomlView::Text("all"@));
    }
    if says(doc, "system_audio"@, TomlView::Text("app"@)) {
        lemma_says(doc, "system_audio"@, TomlView::Text("app"@));
    }
    if silent_on(doc, "output_dir"@) {
        lemma_silent(doc, "output_dir"@);
    }
    if silent_on(doc, "fullscreen_output"@) {
        lemma_silent(doc, "fullscreen_output"@);
    }
    if silent_on(doc, "audio_sink"@) {
        lemma_silent(doc, "audio_sink"@);
    }
    if silent_on(doc, "audio_app"@) {
        lemma_silent(doc, "audio_app"@);
    }
    if silent_on(doc, "mic_device"@) {
        lemma_silent(doc, "mic_device"@);
    }
    if silent_on(doc, "audio_default"@) {
        lemma_silent(doc, "audio_default"@);
    }
    if silent_on(doc, "copy_path"@) {
        lemma_silent(doc, "copy_path"@);
    }
    if silent_on(doc, "notify"@) {
        lemma_silent(doc, "notify"@);
    }
    if silent_on(doc, "notify_on_start_cli"@) {
        lemma_silent(doc, "notify_on_start_cli"@);
    }
    if silent_on(doc, "mic_default"@) {
        lemma_silent(doc, "mic_default"@);
    }
    if silent_on(doc, "stop_timeout_ms"@) {
        lemma_silent(doc, "stop_timeout_ms"@);
    }
    if silent_on(doc, "stop_term_timeout_ms"@) {
        lemma_silent(doc, "stop_term_timeout_ms"@);
    }
    if silent_on(doc, "one_fps"@) {
        lemma_silent(doc, "one_fps"@);
    }
    if silent_on(doc, "system_audio"@) {
        lemma_silent(doc, "system_audio"@);
    }
}

/// Where the document has `key`, its value is of the kind asked for.
pub open spec fn right(
    doc: Seq<(Seq<char>, TomlView)>,
    key: Seq<char>,
    kind: spec_fn(TomlView) -> bool,
) -> bool {
    forall|v: TomlView| #[trigger] says(doc, key, v) ==> kind(v)
}

proof fn lemma_right(doc: Seq<(Seq<char>, TomlView)>, key: Seq<char>)
    ensures
        value_at(doc, key) is Some ==> says(doc, key, value_at(doc, key)->0),
        forall|v: TomlView| #[trigger] says(doc, key, v) ==> value_at(doc, key) == Some(v),
    decreases doc.len(),
{
    assert forall|v: TomlView| #[trigger] says(doc, key, v) implies value_at(doc, key) == Some(
        v,
    ) by {
        lemma_says(doc, key, v);
    }
    if doc.len() > 0 {
        if doc[0].0 == key {
            assert(doc[0] == (key, doc[0].1));
            assert(says(doc, key, doc[0].1));
        } else {
            let rest = doc.drop_first();
            lemma_right(rest, key);
            if value_at(rest, key) is Some {
                let v = value_at(rest, key)->0;
                let i = choose|i: int|
                    {
                        &&& 0 <= i < rest.len()
                        &&& #[trigger] rest[i] == (key, v)
                        &&& forall|j: int| 0 <= j < i ==> (#[trigger] rest[j]).0 != key
                    };
                assert(doc[i + 1] == (key, v));
                assert forall|j: int| 0 <= j < i + 1 implies (#[trigger] doc[j]).0 != key by {
                    if j > 0 {
                        assert(rest[j - 1] == doc[j]);
                    }
                }
            }
        }
    }
}

/// Every setting that the document has is of its kind.
pub open spec fn all_right(doc: Seq<(Seq<char>, TomlView)>) -> bool {
    &&& right(doc, "output_dir"@, |v: TomlView| v is Text)
    &&& right(doc, "fullscreen_output"@, |v: TomlView| v is Text)
    &&& right(doc, "audio_sink"@, |v: TomlView| v is Text)
    &&& right(doc, "audio_app"@, |v: TomlView| v is Text)
    &&& right(doc, "mic_device"@, |v: TomlView| v is Text)
    &&& right(doc, "audio_default"@, |v: TomlView| v is Boolean)
    &&& right(doc, "copy_path"@, |v: TomlView| v is Boolean)
    &&& right(doc, "notify"@, |v: TomlView| v is Boolean)
    &&& right(doc, "notify_on_start_cli"@, |v: TomlView| v is Boolean)
    &&& right(doc, "mic_default"@, |v: TomlView| v is Boolean)
    &&& right(doc, "stop_timeout_ms"@, |v: TomlView| v is Integer && v->Integer_0 >= 0)
    &&& right(doc, "stop_term_timeout_ms"@, |v: TomlView| v is Integer && v->Integer_0 >= 0)
    &&& right(doc, "one_fps"@, |v: TomlView| v is Integer && 0 <= v->Integer_0 <= u32::MAX)
    &&& right(
        doc,
        "system_audio"@,
        |v: TomlView|
            v is Text && (v->Text_0 == "off"@ || v->Text_0 == "all"@ || v->Text_0 == "app"@),
    )
}

/// A document is taken exactly if every setting that it has is of its kind,
/// whatever other keys it has.
pub proof fn settings_need_their_kinds(
    doc: Seq<(Seq<char>, TomlView)>,
    defaults: ConfigView,
    cwd: Seq<char>,
)
    ensures
        configured(Ok(doc), defaults, cwd) is Ok <==> all_right(doc),
{
    lemma_right(doc, "output_dir"@);
    lemma_right(doc, "fullscreen_output"@);
    lemma_right(doc, "audio_sink"@);
    lemma_right(doc, "audio_app"@);
    lemma_right(doc, "mic_device"@);
    lemma_right(doc, "audio_default"@);
    lemma_right(doc, "copy_path"@);
    lemma_right(doc, "notify"@);
    lemma_right(doc, "notify_on_start_cli"@);
    lemma_right(doc, "mic_default"@);
    lemma_right(doc, "stop_timeout_ms"@);
    lemma_right(doc, "stop_term_timeout_ms"@);
    lemma_right(doc, "one_fps"@);
    lemma_right(doc, "system_audio"@);
}

/// Making the output directory absolute touches nothing else.
pub proof fn output_directory_is_below_the_base(c: ConfigView, base: Seq<char>)
    ensures
        is_below(c.with_paths(base).output_dir, c.output_dir, base),
        c.with_paths(base) == (ConfigView { output_dir: c.with_paths(base).output_dir, ..c }),
{
    reveal_strlit("Videos");
}

/// The name that an optional text gives: without surrounding white space, and none
/// where nothing is left.
pub open spec fn is_name_of(name: Option<Seq<char>>, text: Option<Seq<char>>) -> bool {
    match name {
        Some(n) => text is Some && n == trim_of(text->0) && n.len() > 0,
        None => text is None || trim_of(text->0).len() == 0,
    }
}

/// The audio plan of the settings is what they say: the mode, else everything or
/// nothing as `audio_default` has it; the devices and the application by name.
pub proof fn plan_is_as_set(c: ConfigView)
    ensures
        c.system_audio is Some ==> c.plan().system == c.system_audio->0,
        c.system_audio is None && c.audio_default ==> c.plan().system == SystemAudioMode::All,
        c.system_audio is None && !c.audio_default ==> c.plan().system == SystemAudioMode::Off,
        is_name_of(c.plan().sink, c.audio_sink),
        is_name_of(c.plan().app, c.audio_app),
        is_name_of(c.plan().mic_device, c.mic_device),
        c.plan().mic == c.mic_default,
{
}

/// Remembering a plan stores it and touches no other setting.
pub proof fn remembering_a_plan_touches_audio_alone(c: ConfigView, plan: PlanView)
    ensures
        c.with_plan(plan).system_audio == Some(plan.system),
        is_name_of(c.with_plan(plan).audio_sink, plan.sink),
        is_name_of(c.with_plan(plan).audio_app, plan.app),
        is_name_of(c.with_plan(plan).mic_device, plan.mic_device),
        c.with_plan(plan).mic_default == plan.mic,
        ({
            let after = c.with_plan(plan);
            &&& after.output_dir == c.output_dir
            &&& after.audio_default == c.audio_default
            &&& after.copy_path == c.copy_path
            &&& after.notify == c.notify
            &&& after.notify_on_start_cli == c.notify_on_start_cli
            &&& after.stop_timeout_ms == c.stop_timeout_ms
            &&& after.stop_term_timeout_ms == c.stop_term_timeout_ms
            &&& after.fullscreen_output == c.fullscreen_output
            &&& after.one_fps == c.one_fps
        }),
{
}

/// The settings that a document can have.
pub open spec fn is_setting(key: Seq<char>) -> bool {
    ||| key == "output_dir"@
    ||| key == "audio_default"@
    ||| key == "copy_path"@
    ||| key == "notify"@
    ||| key == "notify_on_start_cli"@
    ||| key == "stop_timeout_ms"@
    ||| key == "stop_term_timeout_ms"@
    ||| key == "fullscreen_output"@
    ||| key == "one_fps"@
    ||| key == "system_audio"@
    ||| key == "audio_sink"@
    ||| key == "audio_app"@
    ||| key == "mic_default"@
    ||| key == "mic_device"@
}

/// A document that is not taken is refused by the name of a setting that it has.
pub proof fn a_refusal_names_the_setting(
    doc: Seq<(Seq<char>, TomlView)>,
    defaults: ConfigView,
    cwd: Seq<char>,
    e: Seq<char>,
) -> (found: (Seq<char>, TomlView))
    requires
        configured(Ok(doc), defaults, cwd) == Err::<ConfigView, Seq<char>>(e),
    ensures
        is_setting(found.0),
        says(doc, found.0, found.1),
        e == "parse config: "@ + ("invalid value for "@ + found.0),
{
    let key = if crate::config::text_setting(doc, "output_dir"@) is Err {
        "output_dir"@
    } else if crate::config::flag_setting(doc, "audio_default"@) is Err {
        "audio_default"@
    } else if crate::config::flag_setting(doc, "copy_path"@) is Err {
        "copy_path"@
    } else if crate::config::flag_setting(doc, "notify"@) is Err {
        "notify"@
    } else if crate::config::flag_setting(doc, "notify_on_start_cli"@) is Err {
        "notify_on_start_cli"@
    } else if crate::config::millis_setting(doc, "stop_timeout_ms"@) is Err {
        "stop_timeout_ms"@
    } else if crate::config::millis_setting(doc, "stop_term_timeout_ms"@) is Err {
        "stop_term_timeout_ms"@
    } else if crate::config::text_setting(doc, "fullscreen_output"@) is Err {
        "fullscreen_output"@
    } else if crate::config::rate_setting(doc, "one_fps"@) is Err {
        "one_fps"@
    } else if crate::config::mode_setting(doc, "system_audio"@) is Err {
        "system_audio"@
    } else if crate::config::text_setting(doc, "audio_sink"@) is Err {
        "audio_sink"@
    } else if crate::config::text_setting(doc, "audio_app"@) is Err {
        "audio_app"@
    } else if crate::config::flag_setting(doc, "mic_default"@) is Err {
        "mic_default"@
    } else {
        "mic_device"@
    };
    lemma_right(doc, key);
    (key, value_at(doc, key)->0)
}

/// Text that cannot be read is refused with the reason.
pub proof fn unreadable_settings_are_refused(e: Seq<char>, defaults: ConfigView, cwd: Seq<char>)
    ensures
        configured(Err(e), defaults, cwd) == Err::<ConfigView, Seq<char>>("parse config: "@ + e),
{
}

/// Without settings a recording has no audio, its path is copied, it is notified of, and
/// it has five seconds to stop and two more when it is told again; nothing is chosen.
pub proof fn defaults_choose_nothing(dir: Seq<char>)
    ensures
        ({
            let c = ConfigView::defaults(dir);
            &&& c.output_dir == dir
            &&& !c.audio_default && !c.mic_default
            &&& c.copy_path && c.notify && c.notify_on_start_cli
            &&& c.stop_timeout_ms == 5000 && c.stop_term_timeout_ms == 2000
            &&& c.fullscreen_output is None && c.one_fps is None
            &&& c.system_audio is None && c.audio_sink is None && c.audio_app is None
            &&& c.mic_device is None
            &&& !c.plan().records()
        }),
{
}

} // verus!
