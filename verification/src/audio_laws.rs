//! Laws of the audio plan: what a recipe captures, and what is read off the
//! listings of `pactl`.

use vstd::prelude::*;
use vstd::string::*;

use crate::audio::{
    app_is, app_mentions, capture_recipe, description_of, device_header, devices_of,
    described_inventory, header_index, input_header, inputs_of, is_mic, last_header, last_value,
    listed_devices, listed_inputs, name_of_index, named_pair, short_entries, short_entry, AppView, AudioErrorView,
    InventoryView, PlanView, RecipeView, SystemAudioMode,
};
use crate::seqs::{index_where, index_where_is, index_where_props};
use crate::text::{
    after_prefix, decimal, has_ignoring_case, is_white, lines_of, parsed_u32, same_ignoring_case,
    trim_of, words_of,
};

verus! {

// ---------------------------------------------------------------------------
// What is captured
// ---------------------------------------------------------------------------

/// The text is there and not blank.
pub open spec fn says_something(text: Option<Seq<char>>) -> bool {
    text is Some && trim_of(text->0).len() > 0
}

/// The recipe records `source`, alone or first in a mix.
pub open spec fn records_first(r: RecipeView, source: Seq<char>) -> bool {
    ||| r == RecipeView::Direct(source)
    ||| r is Mix && r->feeds.len() > 0 && r->feeds[0] == source
}

/// The recipe records `source`, alone or last in a mix.
pub open spec fn records_last(r: RecipeView, source: Seq<char>) -> bool {
    ||| r == RecipeView::Direct(source)
    ||| r is Mix && r->feeds.len() > 0 && r->feeds.last() == source
}

/// Whether `s` ends with `tail`.
pub open spec fn ends_in(s: Seq<char>, tail: Seq<char>) -> bool {
    tail.len() <= s.len() && s.skip(s.len() - tail.len()) == tail
}

/// A plan for everything on a named sink records that sink, whatever the default
/// is; without a name it records the default sink.
pub proof fn the_named_sink_is_recorded(
    plan: PlanView,
    inv: InventoryView,
    default_sink: Seq<char>,
    default_source: Seq<char>,
    r: RecipeView,
)
    requires
        plan.system == SystemAudioMode::All,
        capture_recipe(plan, inv, default_sink, default_source) == Ok::<RecipeView, AudioErrorView>(
            r,
        ),
    ensures
        says_something(plan.sink) ==> records_first(r, trim_of(plan.sink->0) + ".monitor"@),
        !says_something(plan.sink) ==> default_sink.len() > 0 && records_first(
            r,
            default_sink + ".monitor"@,
        ),
        r is Direct <==> !plan.mic,
        r is Mix ==> r->feeds.len() == 2 && r->apps.len() == 0,
{
}

/// With a named sink the default sink has no influence on a plan for everything.
pub proof fn a_named_sink_overrides_the_default(
    plan: PlanView,
    inv: InventoryView,
    default_source: Seq<char>,
    one_default: Seq<char>,
    other_default: Seq<char>,
)
    requires
        plan.system == SystemAudioMode::All,
        says_something(plan.sink),
    ensures
        capture_recipe(plan, inv, one_default, default_source) == capture_recipe(
            plan,
            inv,
            other_default,
            default_source,
        ),
{
}

/// `source` is the microphone of a plan: the one named; else the default source,
/// unless it is a monitor; else the first source that is no monitor.
pub open spec fn is_microphone(
    source: Seq<char>,
    named: Option<Seq<char>>,
    inv: InventoryView,
    default_source: Seq<char>,
) -> bool {
    if says_something(named) {
        source == trim_of(named->0)
    } else if default_source.len() > 0 && !ends_in(default_source, ".monitor"@) {
        source == default_source
    } else {
        exists|i: int|
            {
                &&& 0 <= i < inv.sources.len()
                &&& (#[trigger] inv.sources[i]).name == source
                &&& !inv.sources[i].is_monitor
                &&& forall|j: int| 0 <= j < i ==> (#[trigger] inv.sources[j]).is_monitor
            }
    }
}

/// A plan with a microphone records it; one without records nothing but what is
/// played.
pub proof fn the_microphone_is_recorded(
    plan: PlanView,
    inv: InventoryView,
    default_sink: Seq<char>,
    default_source: Seq<char>,
    r: RecipeView,
) -> (mic: Seq<char>)
    requires
        plan.records(),
        capture_recipe(plan, inv, default_sink, default_source) == Ok::<RecipeView, AudioErrorView>(
            r,
        ),
    ensures
        plan.mic ==> is_microphone(mic, plan.mic_device, inv, default_source),
        plan.mic ==> records_last(r, mic),
        plan.mic ==> mic.len() > 0,
        plan.system == SystemAudioMode::Off ==> r == RecipeView::Direct(mic),
        plan.system == SystemAudioMode::App ==> r is Mix && r->feeds.len() == (if plan.mic {
            1int
        } else {
            0
        }),
{
    index_where_props(inv.sources, is_mic());
    let k = index_where(inv.sources, is_mic());
    if plan.mic && !says_something(plan.mic_device) && !(default_source.len() > 0 && !ends_in(
        default_source,
        ".monitor"@,
    )) {
        assert(k < inv.sources.len());
        assert(is_mic()(inv.sources[k]));
        assert forall|j: int| 0 <= j < k implies (#[trigger] inv.sources[j]).is_monitor by {
            assert(!is_mic()(inv.sources[j]));
        }
        inv.sources[k].name
    } else if says_something(plan.mic_device) {
        trim_of(plan.mic_device->0)
    } else {
        default_source
    }
}

/// A plan for everything fails only where there is no sink to record, or no
/// microphone.
pub proof fn everything_needs_a_sink(
    plan: PlanView,
    inv: InventoryView,
    default_sink: Seq<char>,
    default_source: Seq<char>,
)
    requires
        plan.system == SystemAudioMode::All,
    ensures
        capture_recipe(plan, inv, default_sink, default_source) is Err <==> {
            ||| !says_something(plan.sink) && default_sink.len() == 0
            ||| plan.mic && no_microphone(plan.mic_device, inv, default_source)
        },
{
    lemma_no_microphone(plan, inv, default_source);
}

/// No microphone can be recorded: none is named, the default source is not one,
/// and no listed source that could stand in has a name.
pub open spec fn no_microphone(
    named: Option<Seq<char>>,
    inv: InventoryView,
    default_source: Seq<char>,
) -> bool {
    forall|m: Seq<char>| #[trigger]
        is_microphone(m, named, inv, default_source) ==> m.len() == 0
}

proof fn lemma_no_microphone(plan: PlanView, inv: InventoryView, default_source: Seq<char>)
    ensures
        no_microphone(plan.mic_device, inv, default_source) <==> crate::audio::mic_source(
            plan.normal(),
            inv,
            default_source,
        ).len() == 0,
{
    let mic = crate::audio::mic_source(plan.normal(), inv, default_source);
    index_where_props(inv.sources, is_mic());
    let k = index_where(inv.sources, is_mic());
    if says_something(plan.mic_device) || (default_source.len() > 0 && !ends_in(
        default_source,
        ".monitor"@,
    )) {
        assert(is_microphone(mic, plan.mic_device, inv, default_source));
    } else {
        if k < inv.sources.len() {
            assert(is_mic()(inv.sources[k]));
            assert forall|j: int| 0 <= j < k implies (#[trigger] inv.sources[j]).is_monitor by {
                assert(!is_mic()(inv.sources[j]));
            }
            assert(inv.sources[k].name == mic);
            assert(is_microphone(mic, plan.mic_device, inv, default_source));
        }
        assert forall|m: Seq<char>| #[trigger]
            is_microphone(m, plan.mic_device, inv, default_source) implies m == mic by {
            let i = choose|i: int|
                {
                    &&& 0 <= i < inv.sources.len()
                    &&& (#[trigger] inv.sources[i]).name == m
                    &&& !inv.sources[i].is_monitor
                    &&& forall|j: int| 0 <= j < i ==> (#[trigger] inv.sources[j]).is_monitor
                };
            assert forall|j: int| 0 <= j < i implies !is_mic()(#[trigger] inv.sources[j]) by {
                assert(inv.sources[j].is_monitor);
            }
            index_where_is(inv.sources, is_mic(), i);
        }
    }
}

/// A plan for the microphone alone fails only where there is none.
pub proof fn the_microphone_alone_needs_one(
    plan: PlanView,
    inv: InventoryView,
    default_sink: Seq<char>,
    default_source: Seq<char>,
)
    requires
        plan.system == SystemAudioMode::Off,
    ensures
        capture_recipe(plan, inv, default_sink, default_source) is Err <==> plan.mic
            && no_microphone(plan.mic_device, inv, default_source),
        capture_recipe(plan, inv, default_sink, default_source) == Ok::<RecipeView, AudioErrorView>(
            RecipeView::Nothing,
        ) <==> !plan.mic,
{
    lemma_no_microphone(plan, inv, default_source);
}

/// The application calls itself `want`, up to case.
pub open spec fn is_called(a: AppView, want: Seq<char>) -> bool {
    same_ignoring_case(a.name, want)
}

/// The name or the media of the application has `want` in it, up to case.
pub open spec fn speaks_of(a: AppView, want: Seq<char>) -> bool {
    has_ignoring_case(a.name, want) || (a.media_name is Some && has_ignoring_case(
        a.media_name->0,
        want,
    ))
}

/// The application at `i` is the one meant by `want`: the first that is called so,
/// else the first that has it in its name or media.
pub open spec fn is_meant(apps: Seq<AppView>, i: int, want: Seq<char>) -> bool {
    &&& 0 <= i < apps.len()
    &&& if exists|j: int| 0 <= j < apps.len() && is_called(#[trigger] apps[j], want) {
        &&& is_called(apps[i], want)
        &&& forall|j: int| 0 <= j < i ==> !is_called(#[trigger] apps[j], want)
    } else {
        &&& speaks_of(apps[i], want)
        &&& forall|j: int| 0 <= j < i ==> !speaks_of(#[trigger] apps[j], want)
    }
}

/// A plan for one application moves the one that is meant, and keeps it audible on
/// the sink on which it plays.
pub proof fn the_application_meant_is_moved(
    plan: PlanView,
    inv: InventoryView,
    default_sink: Seq<char>,
    default_source: Seq<char>,
    r: RecipeView,
) -> (i: int)
    requires
        plan.system == SystemAudioMode::App,
        capture_recipe(plan, inv, default_sink, default_source) == Ok::<RecipeView, AudioErrorView>(
            r,
        ),
    ensures
        says_something(plan.app),
        is_meant(inv.apps, i, trim_of(plan.app->0)),
        r is Mix && r->apps.len() == 1,
        r->apps[0].0 == inv.apps[i].index,
        inv.apps[i].sink.len() > 0 ==> r->apps[0].1 == inv.apps[i].sink,
        inv.apps[i].sink.len() == 0 ==> r->apps[0].1 == default_sink,
        r->hear == Some(r->apps[0].1),
{
    let want = trim_of(plan.app->0);
    let apps = inv.apps;
    index_where_props(apps, app_is(want));
    index_where_props(apps, app_mentions(want));
    let k = index_where(apps, app_is(want));
    let m = index_where(apps, app_mentions(want));
    if k < apps.len() {
        assert(app_is(want)(apps[k]));
        assert(is_called(apps[k], want));
        assert forall|j: int| 0 <= j < k implies !is_called(#[trigger] apps[j], want) by {
            assert(!app_is(want)(apps[j]));
        }
        k
    } else {
        assert forall|j: int| 0 <= j < apps.len() implies !is_called(#[trigger] apps[j], want) by {
            assert(!app_is(want)(apps[j]));
        }
        assert(app_mentions(want)(apps[m]));
        assert forall|j: int| 0 <= j < m implies !speaks_of(#[trigger] apps[j], want) by {
            assert(!app_mentions(want)(apps[j]));
        }
        m
    }
}

/// A plan for one application fails only where none is named, none that plays is
/// meant, or a microphone is asked for and there is none.
pub proof fn an_application_must_play(
    plan: PlanView,
    inv: InventoryView,
    default_sink: Seq<char>,
    default_source: Seq<char>,
)
    requires
        plan.system == SystemAudioMode::App,
    ensures
        capture_recipe(plan, inv, default_sink, default_source) is Err <==> {
            ||| !says_something(plan.app)
            ||| forall|j: int|
                0 <= j < inv.apps.len() ==> !is_called(#[trigger] inv.apps[j], trim_of(plan.app->0))
                    && !speaks_of(inv.apps[j], trim_of(plan.app->0))
            ||| plan.mic && no_microphone(plan.mic_device, inv, default_source)
        },
{
    lemma_no_microphone(plan, inv, default_source);
    if says_something(plan.app) {
        let want = trim_of(plan.app->0);
        let apps = inv.apps;
        index_where_props(apps, app_is(want));
        index_where_props(apps, app_mentions(want));
        let k = index_where(apps, app_is(want));
        let m = index_where(apps, app_mentions(want));
        if k < apps.len() {
            assert(app_is(want)(apps[k]));
            assert(is_called(apps[k], want));
        } else if m < apps.len() {
            assert(app_mentions(want)(apps[m]));
            assert(speaks_of(apps[m], want));
            assert(!(!is_called(apps[m], want) && !speaks_of(apps[m], want)));
        } else {
            assert forall|j: int| 0 <= j < apps.len() implies !is_called(#[trigger] apps[j], want)
                && !speaks_of(apps[j], want) by {
                assert(!app_is(want)(apps[j]));
                assert(!app_mentions(want)(apps[j]));
            }
        }
    }
}

// ---------------------------------------------------------------------------
// What is read off the listings
// ---------------------------------------------------------------------------

/// Whether the line, apart from white space around it, begins with `key`.
pub open spec fn begins(line: Seq<char>, key: Seq<char>) -> bool {
    key.len() <= trim_of(line).len() && trim_of(line).take(key.len() as int) == key
}

/// No line begins with `key`.
pub open spec fn never(ls: Seq<Seq<char>>, key: Seq<char>) -> bool {
    forall|i: int| 0 <= i < ls.len() ==> !begins(#[trigger] ls[i], key)
}

/// A line reads `key` and then `value`, and no line below it begins with `key`.
pub open spec fn reads(ls: Seq<Seq<char>>, key: Seq<char>, value: Seq<char>) -> bool {
    exists|i: int|
        {
            &&& 0 <= i < ls.len()
            &&& trim_of(#[trigger] ls[i]) == key + value
            &&& forall|j: int| i < j < ls.len() ==> !begins(#[trigger] ls[j], key)
        }
}

/// `name` in double quotes.
pub open spec fn quoted(name: Seq<char>) -> Seq<char> {
    seq!['"'] + name + seq!['"']
}

proof fn lemma_begins(line: Seq<char>, key: Seq<char>)
    ensures
        begins(line, key) <==> after_prefix(trim_of(line), key) is Some,
        forall|v: Seq<char>| trim_of(line) == #[trigger] (key + v) ==> after_prefix(
            trim_of(line),
            key,
        ) == Some(v),
{
    let t = trim_of(line);
    if key.len() <= t.len() {
        assert(t.take(key.len() as int) =~= t.subrange(0, key.len() as int));
    }
    assert forall|v: Seq<char>| t == #[trigger] (key + v) implies after_prefix(t, key) == Some(
        v,
    ) by {
        assert(t.subrange(0, key.len() as int) =~= key);
        assert(t.subrange(key.len() as int, t.len() as int) =~= v);
    }
}

proof fn lemma_never(ls: Seq<Seq<char>>, key: Seq<char>)
    requires
        never(ls, key),
    ensures
        last_value(ls, key) is None,
    decreases ls.len(),
{
    if ls.len() > 0 {
        assert(!begins(ls[ls.len() - 1], key));
        lemma_begins(ls.last(), key);
        let rest = ls.drop_last();
        assert forall|i: int| 0 <= i < rest.len() implies !begins(#[trigger] rest[i], key) by {
            assert(rest[i] == ls[i]);
        }
        lemma_never(rest, key);
    }
}

proof fn lemma_reads(ls: Seq<Seq<char>>, key: Seq<char>, value: Seq<char>)
    requires
        reads(ls, key, value),
    ensures
        last_value(ls, key) == Some(value),
    decreases ls.len(),
{
    let i = choose|i: int|
        {
            &&& 0 <= i < ls.len()
            &&& trim_of(#[trigger] ls[i]) == key + value
            &&& forall|j: int| i < j < ls.len() ==> !begins(#[trigger] ls[j], key)
        };
    lemma_begins(ls.last(), key);
    if i < ls.len() - 1 {
        assert(!begins(ls[ls.len() - 1], key));
        let rest = ls.drop_last();
        assert(rest[i] == ls[i]);
        assert forall|j: int| i < j < rest.len() implies !begins(#[trigger] rest[j], key) by {
            assert(rest[j] == ls[j]);
        }
        lemma_reads(rest, key, value);
    }
}

proof fn lemma_unquoted(name: Seq<char>)
    ensures
        crate::audio::unquoted(quoted(name)) == name,
{
    let q = quoted(name);
    assert(q[0] == '"' && q.last() == '"');
    assert(!is_white('"'));
    assert(crate::text::trim_start_of(q) == q);
    assert(trim_of(q) == q);
    assert(q.subrange(1, q.len() - 1) =~= name);
}

proof fn lemma_header_place(
    before: Seq<Seq<char>>,
    header: Seq<char>,
    body: Seq<Seq<char>>,
    is_header: spec_fn(Seq<char>) -> bool,
)
    requires
        is_header(header),
        forall|i: int| 0 <= i < body.len() ==> !is_header(#[trigger] body[i]),
    ensures
        last_header(before.push(header) + body, is_header) == before.len(),
        (before.push(header) + body).take(before.len() as int) == before,
        (before.push(header) + body)[before.len() as int] == header,
        (before.push(header) + body).skip(before.len() as int + 1) == body,
    decreases body.len(),
{
    let ls = before.push(header) + body;
    assert(ls.take(before.len() as int) =~= before);
    assert(ls.skip(before.len() as int + 1) =~= body);
    if body.len() > 0 {
        assert(!is_header(body[body.len() - 1]));
        assert(ls.last() == body.last());
        let rest = body.drop_last();
        assert forall|i: int| 0 <= i < rest.len() implies !is_header(#[trigger] rest[i]) by {
            assert(rest[i] == body[i]);
        }
        lemma_header_place(before, header, rest, is_header);
        assert(ls.drop_last() =~= before.push(header) + rest);
    } else {
        assert(ls =~= before.push(header));
        assert(ls.last() == header);
    }
}

/// An entry of `pactl list sink-inputs` is listed as its lines say: under the name
/// that the application gives itself, whatever its media is called; else under the
/// name of its media; else under its index. What is listed above it stays as it is.
pub proof fn a_sink_input_is_listed_as_described(
    before: Seq<Seq<char>>,
    header: Seq<char>,
    number: Seq<char>,
    body: Seq<Seq<char>>,
) -> (a: AppView)
    requires
        trim_of(header) == "Sink Input #"@ + number,
        parsed_u32(trim_of(number)) is Some,
        never(body, "Sink Input #"@),
    ensures
        inputs_of(before.push(header) + body) == inputs_of(before).push(a),
        a.index == parsed_u32(trim_of(number))->0,
        forall|name: Seq<char>| #[trigger]
            reads(body, "application.name = "@, quoted(name)) && name.len() > 0 ==> a.name == name,
        forall|media: Seq<char>| #[trigger]
            reads(body, "media.name = "@, quoted(media)) ==> {
                &&& a.media_name == Some(media)
                &&& never(body, "application.name = "@) || reads(
                    body,
                    "application.name = "@,
                    quoted(Seq::empty()),
                ) ==> a.name == media
            },
        never(body, "media.name = "@) ==> a.media_name is None,
        never(body, "media.name = "@) && never(body, "application.name = "@) ==> a.name
            == "sink-input-"@ + decimal(a.index as nat),
        forall|name: Seq<char>| #[trigger]
            reads(body, "application.name = "@, name) && trim_of(name).len() > 0 && trim_of(name)[0]
                != '"' ==> a.name == trim_of(name),
        forall|media: Seq<char>| #[trigger]
            reads(body, "media.name = "@, media) && trim_of(media).len() > 0 && trim_of(media)[0]
                != '"' ==> a.media_name == Some(trim_of(media)),
        forall|sink: Seq<char>| #[trigger]
            reads(body, "Sink:"@, sink) ==> a.sink == trim_of(sink),
        never(body, "Sink:"@) ==> a.sink.len() == 0,
{
    let ls = before.push(header) + body;
    lemma_begins(header, "Sink Input #"@);
    assert forall|i: int| 0 <= i < body.len() implies !input_header()(#[trigger] body[i]) by {
        assert(!begins(body[i], "Sink Input #"@));
        lemma_begins(body[i], "Sink Input #"@);
    }
    lemma_header_place(before, header, body, input_header());
    let a = crate::audio::described_input(header_index(header)->0, body);
    assert(inputs_of(ls) =~= inputs_of(before).push(a));
    assert forall|name: Seq<char>| #[trigger]
        reads(body, "application.name = "@, quoted(name)) implies last_value(
        body,
        "application.name = "@,
    ) == Some(quoted(name)) && crate::audio::unquoted(quoted(name)) == name by {
        lemma_reads(body, "application.name = "@, quoted(name));
        lemma_unquoted(name);
    }
    assert forall|media: Seq<char>| #[trigger]
        reads(body, "media.name = "@, quoted(media)) implies last_value(body, "media.name = "@)
        == Some(quoted(media)) && crate::audio::unquoted(quoted(media)) == media by {
        lemma_reads(body, "media.name = "@, quoted(media));
        lemma_unquoted(media);
    }
    assert forall|name: Seq<char>| #[trigger] reads(body, "application.name = "@, name) implies
        last_value(body, "application.name = "@) == Some(name) by {
        lemma_reads(body, "application.name = "@, name);
    }
    assert forall|media: Seq<char>| #[trigger] reads(body, "media.name = "@, media) implies
        last_value(body, "media.name = "@) == Some(media) by {
        lemma_reads(body, "media.name = "@, media);
    }
    assert forall|sink: Seq<char>| #[trigger] reads(body, "Sink:"@, sink) implies last_value(
        body,
        "Sink:"@,
    ) == Some(sink) by {
        lemma_reads(body, "Sink:"@, sink);
    }
    if never(body, "media.name = "@) {
        lemma_never(body, "media.name = "@);
    }
    if never(body, "application.name = "@) {
        lemma_never(body, "application.name = "@);
    }
    if never(body, "Sink:"@) {
        lemma_never(body, "Sink:"@);
    }
    a
}

/// Nothing plays where no header is listed, and a header whose number cannot be
/// read adds nothing.
pub proof fn no_sink_input_without_a_number(
    before: Seq<Seq<char>>,
    header: Seq<char>,
    number: Seq<char>,
    body: Seq<Seq<char>>,
)
    requires
        trim_of(header) == "Sink Input #"@ + number,
        parsed_u32(trim_of(number)) is None,
        never(body, "Sink Input #"@),
    ensures
        inputs_of(body).len() == 0,
        inputs_of(before.push(header) + body) == inputs_of(before),
{
    lemma_begins(header, "Sink Input #"@);
    assert forall|i: int| 0 <= i < body.len() implies !input_header()(#[trigger] body[i]) by {
        assert(!begins(body[i], "Sink Input #"@));
        lemma_begins(body[i], "Sink Input #"@);
    }
    lemma_no_header(body, input_header());
    lemma_header_place(before, header, body, input_header());
    assert(inputs_of(before.push(header) + body) =~= inputs_of(before));
}

proof fn lemma_no_header(ls: Seq<Seq<char>>, is_header: spec_fn(Seq<char>) -> bool)
    requires
        forall|i: int| 0 <= i < ls.len() ==> !is_header(#[trigger] ls[i]),
    ensures
        last_header(ls, is_header) < 0,
    decreases ls.len(),
{
    if ls.len() > 0 {
        assert(!is_header(ls[ls.len() - 1]));
        let rest = ls.drop_last();
        assert forall|i: int| 0 <= i < rest.len() implies !is_header(#[trigger] rest[i]) by {
            assert(rest[i] == ls[i]);
        }
        lemma_no_header(rest, is_header);
    }
}

/// An entry of `pactl list sinks` or `sources` that has a name is listed under it
/// with its description; one without a name is not. What is listed above it stays
/// as it is.
pub proof fn a_device_is_listed_as_described(
    before: Seq<Seq<char>>,
    header: Seq<char>,
    body: Seq<Seq<char>>,
)
    requires
        begins(header, "Sink #"@) || begins(header, "Source #"@),
        never(body, "Sink #"@),
        never(body, "Source #"@),
    ensures
        never(body, "Name:"@) ==> devices_of(before.push(header) + body) == devices_of(before),
        forall|name: Seq<char>, d: Seq<char>|
            #![trigger reads(body, "Name:"@, name), reads(body, "Description:"@, d)]
            reads(body, "Name:"@, name) && reads(body, "Description:"@, d) ==> devices_of(
                before.push(header) + body,
            ) == devices_of(before).push((trim_of(name), trim_of(d))),
        forall|name: Seq<char>| #[trigger]
            reads(body, "Name:"@, name) && never(body, "Description:"@) ==> devices_of(
                before.push(header) + body,
            ) == devices_of(before).push((trim_of(name), Seq::<char>::empty())),
{
    let ls = before.push(header) + body;
    lemma_begins(header, "Sink #"@);
    lemma_begins(header, "Source #"@);
    assert forall|i: int| 0 <= i < body.len() implies !device_header()(#[trigger] body[i]) by {
        assert(!begins(body[i], "Sink #"@));
        assert(!begins(body[i], "Source #"@));
        lemma_begins(body[i], "Sink #"@);
        lemma_begins(body[i], "Source #"@);
    }
    assert(device_header()(header));
    lemma_header_place(before, header, body, device_header());
    if never(body, "Name:"@) {
        lemma_never(body, "Name:"@);
        assert(devices_of(ls) =~= devices_of(before));
    }
    assert forall|name: Seq<char>, d: Seq<char>|
        #![trigger reads(body, "Name:"@, name), reads(body, "Description:"@, d)]
        reads(body, "Name:"@, name) && reads(body, "Description:"@, d) implies devices_of(ls)
        == devices_of(before).push((trim_of(name), trim_of(d))) by {
        lemma_reads(body, "Name:"@, name);
        lemma_reads(body, "Description:"@, d);
        assert(devices_of(ls) =~= devices_of(before).push((trim_of(name), trim_of(d))));
    }
    assert forall|name: Seq<char>| #[trigger]
        reads(body, "Name:"@, name) && never(body, "Description:"@) implies devices_of(ls)
        == devices_of(before).push((trim_of(name), Seq::<char>::empty())) by {
        lemma_reads(body, "Name:"@, name);
        lemma_never(body, "Description:"@);
        assert(devices_of(ls) =~= devices_of(before).push((trim_of(name), Seq::<char>::empty())));
    }
}

/// A line of a short listing that begins with a number and a name adds them to the
/// list; any other line adds nothing.
pub proof fn a_short_line_gives_number_and_name(ls: Seq<Seq<char>>, line: Seq<char>)
    ensures
        short_entries(Seq::empty()).len() == 0,
        words_of(line).len() >= 2 && parsed_u32(words_of(line)[0]) is Some ==> short_entries(
            ls.push(line),
        ) == short_entries(ls).push((parsed_u32(words_of(line)[0])->0, words_of(line)[1])),
        words_of(line).len() < 2 || parsed_u32(words_of(line)[0]) is None ==> short_entries(
            ls.push(line),
        ) == short_entries(ls),
{
    let f = |l: Seq<char>| short_entry(l);
    let all = ls.push(line).map_values(f);
    assert(all.drop_last() =~= ls.map_values(f));
    assert(all.last() == short_entry(line));
}

/// `description` is what the pairs say of `name`: what stands with it the first
/// time that it occurs, else the name itself.
pub open spec fn is_described(
    name: Seq<char>,
    description: Seq<char>,
    descs: Seq<(Seq<char>, Seq<char>)>,
) -> bool {
    ||| exists|i: int|
        {
            &&& 0 <= i < descs.len()
            &&& #[trigger] descs[i] == (name, description)
            &&& forall|j: int| 0 <= j < i ==> (#[trigger] descs[j]).0 != name
        }
    ||| description == name && forall|j: int| 0 <= j < descs.len() ==> (#[trigger] descs[j]).0
        != name
}

proof fn lemma_described(name: Seq<char>, descs: Seq<(Seq<char>, Seq<char>)>)
    ensures
        is_described(name, description_of(name, descs), descs),
{
    index_where_props(descs, named_pair(name));
    let k = index_where(descs, named_pair(name));
    assert forall|j: int| 0 <= j < k implies (#[trigger] descs[j]).0 != name by {
        assert(!named_pair(name)(descs[j]));
    }
    if k < descs.len() {
        assert(named_pair(name)(descs[k]));
        assert(descs[k] == (name, description_of(name, descs)));
    }
}

/// The inventory has the listed devices in order, each under its name and with its
/// description; the default is the one of that name; monitors are told by the end
/// of their names.
pub proof fn the_inventory_has_the_listed_devices(
    sinks_short: Seq<char>,
    sources_short: Seq<char>,
    sink_inputs: Seq<char>,
    default_sink: Seq<char>,
    default_source: Seq<char>,
    sink_descs: Seq<(Seq<char>, Seq<char>)>,
    source_descs: Seq<(Seq<char>, Seq<char>)>,
)
    ensures
        ({
            let inv = described_inventory(
                sinks_short,
                sources_short,
                sink_inputs,
                default_sink,
                default_source,
                sink_descs,
                source_descs,
            );
            let sinks = short_entries(lines_of(sinks_short));
            let sources = short_entries(lines_of(sources_short));
            &&& inv.sinks.len() == sinks.len()
            &&& forall|i: int|
                0 <= i < sinks.len() ==> {
                    &&& (#[trigger] inv.sinks[i]).name == sinks[i].1
                    &&& is_described(sinks[i].1, inv.sinks[i].description, sink_descs)
                    &&& inv.sinks[i].is_default <==> sinks[i].1 == trim_of(default_sink)
                }
            &&& inv.sources.len() == sources.len()
            &&& forall|i: int|
                0 <= i < sources.len() ==> {
                    &&& (#[trigger] inv.sources[i]).name == sources[i].1
                    &&& is_described(sources[i].1, inv.sources[i].description, source_descs)
                    &&& inv.sources[i].is_default <==> sources[i].1 == trim_of(default_source)
                    &&& inv.sources[i].is_monitor <==> ends_in(sources[i].1, ".monitor"@)
                }
        }),
{
    let inv = described_inventory(
        sinks_short,
        sources_short,
        sink_inputs,
        default_sink,
        default_source,
        sink_descs,
        source_descs,
    );
    let sinks = short_entries(lines_of(sinks_short));
    let sources = short_entries(lines_of(sources_short));
    assert forall|i: int| 0 <= i < sinks.len() implies is_described(
        sinks[i].1,
        (#[trigger] inv.sinks[i]).description,
        sink_descs,
    ) by {
        lemma_described(sinks[i].1, sink_descs);
    }
    assert forall|i: int| 0 <= i < sources.len() implies is_described(
        sources[i].1,
        (#[trigger] inv.sources[i]).description,
        source_descs,
    ) && (inv.sources[i].is_monitor <==> ends_in(sources[i].1, ".monitor"@)) by {
        lemma_described(sources[i].1, source_descs);
    }
}

/// `name` is what the entries call `index`, the last time that it occurs.
pub open spec fn is_index_of(
    entries: Seq<(u32, Seq<char>)>,
    index: u32,
    name: Seq<char>,
) -> bool {
    exists|i: int|
        {
            &&& 0 <= i < entries.len()
            &&& #[trigger] entries[i] == (index, name)
            &&& forall|j: int| i < j < entries.len() ==> (#[trigger] entries[j]).0 != index
        }
}

proof fn lemma_index_of(entries: Seq<(u32, Seq<char>)>, index: u32)
    ensures
        forall|name: Seq<char>| #[trigger]
            is_index_of(entries, index, name) ==> name_of_index(entries, index) == Some(name),
        (forall|j: int| 0 <= j < entries.len() ==> (#[trigger] entries[j]).0 != index)
            ==> name_of_index(entries, index) is None,
    decreases entries.len(),
{
    if entries.len() > 0 {
        let rest = entries.drop_last();
        lemma_index_of(rest, index);
        assert forall|name: Seq<char>| #[trigger] is_index_of(entries, index, name) implies
            name_of_index(entries, index) == Some(name) by {
            let i = choose|i: int|
                {
                    &&& 0 <= i < entries.len()
                    &&& #[trigger] entries[i] == (index, name)
                    &&& forall|j: int| i < j < entries.len() ==> (#[trigger] entries[j]).0 != index
                };
            if i < entries.len() - 1 {
                assert(entries[entries.len() - 1].0 != index);
                assert(rest[i] == (index, name));
                assert forall|j: int| i < j < rest.len() implies (#[trigger] rest[j]).0 != index by {
                    assert(rest[j] == entries[j]);
                }
                assert(is_index_of(rest, index, name));
            }
        }
        if forall|j: int| 0 <= j < entries.len() ==> (#[trigger] entries[j]).0 != index {
            assert(entries[entries.len() - 1].0 != index);
            assert forall|j: int| 0 <= j < rest.len() implies (#[trigger] rest[j]).0 != index by {
                assert(rest[j] == entries[j]);
            }
        }
    }
}

/// The inventory has the playing applications in order, as they are listed, with
/// the sink of each by name: a number is the sink listed under it.
pub proof fn the_inventory_has_the_playing_applications(
    sinks_short: Seq<char>,
    sources_short: Seq<char>,
    sink_inputs: Seq<char>,
    default_sink: Seq<char>,
    default_source: Seq<char>,
    sink_descs: Seq<(Seq<char>, Seq<char>)>,
    source_descs: Seq<(Seq<char>, Seq<char>)>,
)
    ensures
        ({
            let inv = described_inventory(
                sinks_short,
                sources_short,
                sink_inputs,
                default_sink,
                default_source,
                sink_descs,
                source_descs,
            );
            let sinks = short_entries(lines_of(sinks_short));
            let listed = inputs_of(lines_of(sink_inputs));
            &&& inv.apps.len() == listed.len()
            &&& forall|i: int|
                0 <= i < listed.len() ==> {
                    &&& (#[trigger] inv.apps[i]).index == listed[i].index
                    &&& inv.apps[i].name == listed[i].name
                    &&& inv.apps[i].media_name == listed[i].media_name
                    &&& parsed_u32(listed[i].sink) is None ==> inv.apps[i].sink == listed[i].sink
                    &&& parsed_u32(listed[i].sink) is Some ==> {
                        let number = parsed_u32(listed[i].sink)->0;
                        &&& forall|name: Seq<char>| #[trigger]
                            is_index_of(sinks, number, name) ==> inv.apps[i].sink == name
                        &&& (forall|j: int| 0 <= j < sinks.len() ==> (#[trigger] sinks[j]).0 != number)
                            ==> inv.apps[i].sink == listed[i].sink
                    }
                }
        }),
{
    let sinks = short_entries(lines_of(sinks_short));
    let listed = inputs_of(lines_of(sink_inputs));
    assert(listed == listed_inputs(sink_inputs));
    assert forall|i: int| 0 <= i < listed.len() && parsed_u32(listed[i].sink) is Some implies ({
        let number = parsed_u32(#[trigger] listed[i].sink)->0;
        &&& forall|name: Seq<char>| #[trigger]
            is_index_of(sinks, number, name) ==> name_of_index(sinks, number) == Some(name)
        &&& (forall|j: int| 0 <= j < sinks.len() ==> (#[trigger] sinks[j]).0 != number)
            ==> name_of_index(sinks, number) is None
    }) by {
        lemma_index_of(sinks, parsed_u32(listed[i].sink)->0);
    }
}

/// The listings are read line by line.
pub proof fn listings_are_read_by_lines(text: Seq<char>)
    ensures
        listed_inputs(text) == inputs_of(lines_of(text)),
        listed_devices(text) == devices_of(lines_of(text)),
{
}

// ---------------------------------------------------------------------------
// Modes
// ---------------------------------------------------------------------------

/// The words that name a mode.
pub open spec fn names_mode(word: Seq<char>, m: SystemAudioMode) -> bool {
    match m {
        SystemAudioMode::Off => word == "off"@ || word == "none"@ || word == "false"@ || word
            == "0"@,
        SystemAudioMode::All => word == "all"@ || word == "system"@ || word == "pc"@ || word
            == "true"@ || word == "1"@,
        SystemAudioMode::App => word == "app"@ || word == "application"@,
    }
}

proof fn lemma_apart(s: Seq<char>, a: Seq<char>, b: Seq<char>)
    requires
        same_ignoring_case(s, a),
        a.len() != b.len() || exists|i: int|
            0 <= i < a.len() && crate::text::folded(#[trigger] a[i]) != crate::text::folded(b[i]),
    ensures
        !same_ignoring_case(s, b),
{
    if a.len() == b.len() && same_ignoring_case(s, b) {
        let i = choose|i: int|
            0 <= i < a.len() && crate::text::folded(#[trigger] a[i]) != crate::text::folded(b[i]);
        assert(crate::text::folded(s[i]) == crate::text::folded(a[i]));
        assert(crate::text::folded(s[i]) == crate::text::folded(b[i]));
    }
}

/// A mode is named by each of its words, in any case and with white space around it, and
/// by nothing else.
pub proof fn a_mode_is_named_by_its_words(s: Seq<char>, m: SystemAudioMode)
    ensures
        SystemAudioMode::named(s) == Some(m) <==> exists|word: Seq<char>| #[trigger]
            names_mode(word, m) && same_ignoring_case(trim_of(s), word),
{
    reveal_strlit("off");
    reveal_strlit("none");
    reveal_strlit("false");
    reveal_strlit("0");
    reveal_strlit("all");
    reveal_strlit("system");
    reveal_strlit("pc");
    reveal_strlit("true");
    reveal_strlit("1");
    reveal_strlit("app");
    reveal_strlit("application");
    let t = trim_of(s);
    assert("off"@.len() == 3 && "none"@.len() == 4 && "false"@.len() == 5 && "0"@.len() == 1
        && "all"@.len() == 3 && "system"@.len() == 6 && "pc"@.len() == 2 && "true"@.len() == 4
        && "1"@.len() == 1 && "app"@.len() == 3 && "application"@.len() == 11);
    assert("off"@[0] == 'o' && "none"@[0] == 'n' && "0"@[0] == '0' && "all"@[0] == 'a' && "all"@[1]
        == 'l' && "true"@[0] == 't' && "1"@[0] == '1' && "app"@[0] == 'a' && "app"@[1] == 'p');
    if same_ignoring_case(t, "off"@) {
        lemma_apart(t, "off"@, "all"@);
        lemma_apart(t, "off"@, "app"@);
        assert(names_mode("off"@, SystemAudioMode::Off));
    }
    if same_ignoring_case(t, "all"@) {
        lemma_apart(t, "all"@, "off"@);
        assert(crate::text::folded("all"@[1]) != crate::text::folded("app"@[1]));
        lemma_apart(t, "all"@, "app"@);
        assert(names_mode("all"@, SystemAudioMode::All));
    }
    if same_ignoring_case(t, "app"@) {
        lemma_apart(t, "app"@, "off"@);
        assert(crate::text::folded("app"@[1]) != crate::text::folded("all"@[1]));
        lemma_apart(t, "app"@, "all"@);
        assert(names_mode("app"@, SystemAudioMode::App));
    }
    if same_ignoring_case(t, "none"@) {
        lemma_apart(t, "none"@, "true"@);
        assert(names_mode("none"@, SystemAudioMode::Off));
    }
    if same_ignoring_case(t, "true"@) {
        lemma_apart(t, "true"@, "none"@);
        assert(names_mode("true"@, SystemAudioMode::All));
    }
    if same_ignoring_case(t, "0"@) {
        lemma_apart(t, "0"@, "1"@);
        assert(names_mode("0"@, SystemAudioMode::Off));
    }
    if same_ignoring_case(t, "1"@) {
        lemma_apart(t, "1"@, "0"@);
        assert(names_mode("1"@, SystemAudioMode::All));
    }
    if same_ignoring_case(t, "false"@) {
        assert(names_mode("false"@, SystemAudioMode::Off));
    }
    if same_ignoring_case(t, "system"@) {
        assert(names_mode("system"@, SystemAudioMode::All));
    }
    if same_ignoring_case(t, "pc"@) {
        assert(names_mode("pc"@, SystemAudioMode::All));
    }
    if same_ignoring_case(t, "application"@) {
        assert(names_mode("application"@, SystemAudioMode::App));
    }
}

} // verus!
