//! Laws of the routing: what a finished setup has put in place, and what taking it
//! down asks.

use vstd::prelude::*;
use vstd::string::*;

use crate::audio::{
    capture_recipe, AudioErrorView, PlanView, RecipeView, SessionView,
    SystemAudioMode,
};
use crate::audio_laws::{
    is_meant, is_microphone, says_something, the_application_meant_is_moved,
    the_microphone_is_recorded, the_named_sink_is_recorded,
};
use crate::pulse::{
    loaded_ids, mix_sink, mix_steps, name_or_empty, setup_outcome, steps_of, stopped_at, undo_steps,
    undo_warnings, PulseCall, PulseReply, PulseStep,
};
use crate::text::{decimal, trim_of};

verus! {

// ---------------------------------------------------------------------------
// What is in place
// ---------------------------------------------------------------------------

/// The step loads a loopback from `source` to `sink`.
pub open spec fn is_loopback(step: PulseStep, source: Seq<char>, sink: Seq<char>) -> bool {
    &&& step is Load
    &&& step->module == "module-loopback"@
    &&& step->args == "source="@ + source + " sink="@ + sink + " latency_msec=20"@
}

/// The step loads a null sink of that name.
pub open spec fn is_null_sink(step: PulseStep, name: Seq<char>) -> bool {
    &&& step is Load
    &&& step->module == "module-null-sink"@
    &&& step->args == "sink_name="@ + name + " sink_properties=device.description=HyprcapMix"@
}

/// One of the calls looped `source` into `sink`.
pub open spec fn looped(calls: Seq<PulseCall>, source: Seq<char>, sink: Seq<char>) -> bool {
    exists|i: int|
        {
            &&& 0 <= i < calls.len()
            &&& is_loopback((#[trigger] calls[i]).step, source, sink)
            &&& !(calls[i].reply is Failed)
        }
}

/// One of the calls created a null sink of that name.
pub open spec fn created(calls: Seq<PulseCall>, name: Seq<char>) -> bool {
    exists|i: int|
        {
            &&& 0 <= i < calls.len()
            &&& is_null_sink((#[trigger] calls[i]).step, name)
            &&& !(calls[i].reply is Failed)
        }
}

/// One of the calls moved the application at `index` onto `sink`.
pub open spec fn moved(calls: Seq<PulseCall>, index: u32, sink: Seq<char>) -> bool {
    exists|i: int|
        {
            &&& 0 <= i < calls.len()
            &&& (#[trigger] calls[i]).step == (PulseStep::Move { index, sink })
            &&& !(calls[i].reply is Failed)
        }
}

/// The reply is `name`, or no name and `name` is empty.
pub open spec fn names(reply: PulseReply, name: Seq<char>) -> bool {
    if reply is Name {
        reply->Name_0 == name
    } else {
        name.len() == 0
    }
}

/// The recipe that a setup carries out, given the answers to its questions.
pub open spec fn recipe_of(
    plan: PlanView,
    made: Seq<PulseCall>,
    default_sink: Seq<char>,
    default_source: Seq<char>,
    recipe: RecipeView,
) -> bool {
    &&& made.len() >= 4
    &&& made[1].reply is Listed
    &&& names(made[2].reply, default_sink)
    &&& names(made[3].reply, default_source)
    &&& capture_recipe(plan, made[1].reply->Listed_0, default_sink, default_source) == Ok::<
        RecipeView,
        AudioErrorView,
    >(recipe)
}

/// A setup that ends well carried out the recipe for the answers that it got: it
/// asked for `pactl`, for what there is, and for the defaults.
pub proof fn setup_asks_before_it_acts(
    plan: PlanView,
    tag: u32,
    made: Seq<PulseCall>,
    session: SessionView,
) -> (found: (Seq<char>, Seq<char>, RecipeView))
    requires
        setup_outcome(plan, tag, made, Ok(Some(session))),
    ensures
        recipe_of(plan, made, found.0, found.1, found.2),
        made[0].step == PulseStep::Probe("pactl"@),
        made[1].step == PulseStep::Inventory,
        made[2].step == PulseStep::DefaultSink,
        made[3].step == PulseStep::DefaultSource,
        forall|i: int|
            4 <= i < made.len() ==> (#[trigger] made[i]).step is Load || made[i].step is Move,
        found.2 is Direct || found.2 is Mix,
{
    let ds = name_or_empty(made[2].reply);
    let src = name_or_empty(made[3].reply);
    let r = capture_recipe(plan, made[1].reply->Listed_0, ds, src)->Ok_0;
    let rest = made.skip(4);
    match r {
        RecipeView::Mix { feeds, apps, hear } => {
            let steps = mix_steps(mix_sink(tag), feeds, apps, hear, ds);
            assert forall|i: int| 4 <= i < made.len() implies (#[trigger] made[i]).step is Load
                || made[i].step is Move by {
                assert(rest[i - 4] == made[i]);
                lemma_steps(mix_sink(tag), feeds, apps, hear, ds, i - 4);
                assert(rest[i - 4].step == steps[i - 4]);
            }
        },
        _ => {},
    }
    (ds, src, r)
}

proof fn lemma_steps(
    name: Seq<char>,
    feeds: Seq<Seq<char>>,
    apps: Seq<(u32, Seq<char>)>,
    hear: Option<Seq<char>>,
    ds: Seq<char>,
    i: int,
)
    requires
        0 <= i < mix_steps(name, feeds, apps, hear, ds).len(),
    ensures
        ({
            let steps = mix_steps(name, feeds, apps, hear, ds);
            let target = crate::pulse::hear_target(hear, ds);
            &&& i == 0 ==> is_null_sink(steps[i], name)
            &&& 1 <= i < 1 + apps.len() ==> steps[i] == (PulseStep::Move {
                index: apps[i - 1].0,
                sink: name,
            })
            &&& 1 + apps.len() <= i < 1 + apps.len() + feeds.len() ==> is_loopback(
                steps[i],
                feeds[i - 1 - apps.len()],
                name,
            )
            &&& i >= 1 + apps.len() + feeds.len() ==> i == 1 + apps.len() + feeds.len()
                && apps.len() > 0 && target.len() > 0 && is_loopback(
                steps[i],
                name + ".monitor"@,
                target,
            )
        }),
{
}

/// `target` is where moved applications stay audible: on the sink of the recipe,
/// else on the default sink.
pub open spec fn is_audible_on(
    target: Seq<char>,
    hear: Option<Seq<char>>,
    default_sink: Seq<char>,
) -> bool {
    if hear is Some && hear->0.len() > 0 {
        target == hear->0
    } else {
        target == default_sink
    }
}

/// A mix that was set up records what it should: each feed is looped into the null
/// sink that was created, each application is moved onto it, its monitor is what is
/// recorded, and what was moved is looped from there to where it is heard. Nothing
/// else is looped.
pub proof fn the_mix_is_in_place(
    plan: PlanView,
    tag: u32,
    made: Seq<PulseCall>,
    session: SessionView,
    default_sink: Seq<char>,
    default_source: Seq<char>,
    feeds: Seq<Seq<char>>,
    apps: Seq<(u32, Seq<char>)>,
    hear: Option<Seq<char>>,
) -> (mix: (Seq<char>, Seq<char>))
    requires
        setup_outcome(plan, tag, made, Ok(Some(session))),
        recipe_of(plan, made, default_sink, default_source, RecipeView::Mix { feeds, apps, hear }),
    ensures
        mix.0 == "hyprcap_mix_"@ + decimal(tag as nat),
        is_audible_on(mix.1, hear, default_sink),
        created(made, mix.0),
        session.capture_source == mix.0 + ".monitor"@,
        forall|k: int| 0 <= k < feeds.len() ==> looped(made, #[trigger] feeds[k], mix.0),
        forall|k: int| 0 <= k < apps.len() ==> moved(made, (#[trigger] apps[k]).0, mix.0),
        apps.len() > 0 && mix.1.len() > 0 ==> looped(made, mix.0 + ".monitor"@, mix.1),
        session.moved_apps == apps,
        made.len() == 5 + apps.len() + feeds.len() + (if apps.len() > 0 && mix.1.len() > 0 {
            1int
        } else {
            0
        }),
        forall|i: int|
            #![trigger made[i]]
            0 <= i < made.len() && made[i].step is Load ==> {
                ||| is_null_sink(made[i].step, mix.0)
                ||| exists|k: int|
                    0 <= k < feeds.len() && is_loopback(made[i].step, #[trigger] feeds[k], mix.0)
                ||| apps.len() > 0 && is_loopback(made[i].step, mix.0 + ".monitor"@, mix.1)
            },
        forall|i: int| 4 <= i < made.len() ==> !((#[trigger] made[i]).reply is Failed),
{
    let name = mix_sink(tag);
    let target = crate::pulse::hear_target(hear, default_sink);
    let steps = mix_steps(name, feeds, apps, hear, default_sink);
    let rest = made.skip(4);
    assert(default_sink =~= name_or_empty(made[2].reply));
    assert(default_source =~= name_or_empty(made[3].reply));
    assert forall|i: int| 4 <= i < made.len() implies (#[trigger] made[i]).step == steps[i - 4]
        && !(made[i].reply is Failed) by {
        assert(rest[i - 4] == made[i]);
    }
    lemma_steps(name, feeds, apps, hear, default_sink, 0);
    assert(is_null_sink(made[4].step, name));
    assert forall|k: int| 0 <= k < feeds.len() implies looped(made, #[trigger] feeds[k], name) by {
        lemma_steps(name, feeds, apps, hear, default_sink, 1 + apps.len() + k);
        assert(is_loopback(made[5 + apps.len() + k].step, feeds[k], name));
    }
    assert forall|k: int| 0 <= k < apps.len() implies moved(made, (#[trigger] apps[k]).0, name) by {
        lemma_steps(name, feeds, apps, hear, default_sink, 1 + k);
        assert(made[5 + k].step == (PulseStep::Move { index: apps[k].0, sink: name }));
    }
    if apps.len() > 0 && target.len() > 0 {
        lemma_steps(name, feeds, apps, hear, default_sink, 1int + apps.len() + feeds.len());
        assert(is_loopback(made[5int + apps.len() + feeds.len()].step, name + ".monitor"@, target));
    }
    assert forall|i: int|
        #![trigger made[i]]
        0 <= i < made.len() && made[i].step is Load implies {
        ||| is_null_sink(made[i].step, name)
        ||| exists|k: int|
            0 <= k < feeds.len() && is_loopback(made[i].step, #[trigger] feeds[k], name)
        ||| apps.len() > 0 && is_loopback(made[i].step, name + ".monitor"@, target)
    } by {
        if i >= 4 {
            lemma_steps(name, feeds, apps, hear, default_sink, i - 4);
            if 5 + apps.len() <= i < 5 + apps.len() + feeds.len() {
                assert(is_loopback(made[i].step, feeds[i - 5 - apps.len()], name));
            }
        }
    }
    (name, target)
}

/// A source that can be recorded as it is needs no routing.
pub proof fn a_direct_source_needs_no_routing(
    plan: PlanView,
    tag: u32,
    made: Seq<PulseCall>,
    session: SessionView,
    default_sink: Seq<char>,
    default_source: Seq<char>,
    source: Seq<char>,
)
    requires
        setup_outcome(plan, tag, made, Ok(Some(session))),
        recipe_of(plan, made, default_sink, default_source, RecipeView::Direct(source)),
    ensures
        made.len() == 4,
        session.capture_source == source,
        session.module_ids.len() == 0,
        session.moved_apps.len() == 0,
{
    assert(default_sink =~= name_or_empty(made[2].reply));
    assert(default_source =~= name_or_empty(made[3].reply));
}

/// The session records `source`: it is what is recorded, or it is looped into the
/// null sink whose monitor is.
pub open spec fn is_recorded(made: Seq<PulseCall>, session: SessionView, source: Seq<char>) -> bool {
    ||| session.capture_source == source
    ||| exists|name: Seq<char>|
        {
            &&& #[trigger] created(made, name)
            &&& session.capture_source == name + ".monitor"@
            &&& looped(made, source, name)
        }
}

/// After the setup for a plan for everything, the monitor of the sink named is
/// recorded, else that of the default sink.
pub proof fn what_plays_on_the_sink_is_recorded(
    plan: PlanView,
    tag: u32,
    made: Seq<PulseCall>,
    session: SessionView,
    default_sink: Seq<char>,
)
    requires
        plan.system == SystemAudioMode::All,
        setup_outcome(plan, tag, made, Ok(Some(session))),
        names(made[2].reply, default_sink),
    ensures
        says_something(plan.sink) ==> is_recorded(
            made,
            session,
            trim_of(plan.sink->0) + ".monitor"@,
        ),
        !says_something(plan.sink) ==> is_recorded(made, session, default_sink + ".monitor"@),
{
    let (ds, src, r) = setup_asks_before_it_acts(plan, tag, made, session);
    assert(ds =~= default_sink);
    the_named_sink_is_recorded(plan, made[1].reply->Listed_0, ds, src, r);
    match r {
        RecipeView::Direct(source) => {
            a_direct_source_needs_no_routing(plan, tag, made, session, ds, src, source);
        },
        RecipeView::Mix { feeds, apps, hear } => {
            let mix = the_mix_is_in_place(plan, tag, made, session, ds, src, feeds, apps, hear);
            assert(looped(made, feeds[0], mix.0));
        },
        _ => {},
    }
}

/// After the setup for a plan with a microphone, the microphone is recorded.
pub proof fn what_the_microphone_hears_is_recorded(
    plan: PlanView,
    tag: u32,
    made: Seq<PulseCall>,
    session: SessionView,
    default_source: Seq<char>,
) -> (mic: Seq<char>)
    requires
        plan.mic,
        setup_outcome(plan, tag, made, Ok(Some(session))),
        names(made[3].reply, default_source),
    ensures
        made[1].reply is Listed,
        is_microphone(mic, plan.mic_device, made[1].reply->Listed_0, default_source),
        is_recorded(made, session, mic),
{
    let (ds, src, r) = setup_asks_before_it_acts(plan, tag, made, session);
    assert(src =~= default_source);
    let mic = the_microphone_is_recorded(plan, made[1].reply->Listed_0, ds, src, r);
    match r {
        RecipeView::Direct(source) => {
            a_direct_source_needs_no_routing(plan, tag, made, session, ds, src, source);
        },
        RecipeView::Mix { feeds, apps, hear } => {
            let mix = the_mix_is_in_place(plan, tag, made, session, ds, src, feeds, apps, hear);
            assert(looped(made, feeds[feeds.len() - 1], mix.0));
        },
        _ => {},
    }
    mic
}

/// After the setup for a plan for one application, the application meant plays on
/// the null sink whose monitor is recorded, and is heard where it played before.
pub proof fn what_the_application_plays_is_recorded(
    plan: PlanView,
    tag: u32,
    made: Seq<PulseCall>,
    session: SessionView,
    default_sink: Seq<char>,
) -> (found: (int, Seq<char>))
    requires
        plan.system == SystemAudioMode::App,
        setup_outcome(plan, tag, made, Ok(Some(session))),
        names(made[2].reply, default_sink),
    ensures
        made[1].reply is Listed,
        is_meant(made[1].reply->Listed_0.apps, found.0, trim_of(plan.app->0)),
        created(made, found.1),
        session.capture_source == found.1 + ".monitor"@,
        ({
            let app = made[1].reply->Listed_0.apps[found.0];
            let played_on = if app.sink.len() > 0 {
                app.sink
            } else {
                default_sink
            };
            &&& moved(made, app.index, found.1)
            &&& session.moved_apps == seq![(app.index, played_on)]
            &&& played_on.len() > 0 ==> looped(made, found.1 + ".monitor"@, played_on)
        }),
{
    let (ds, src, r) = setup_asks_before_it_acts(plan, tag, made, session);
    assert(ds =~= default_sink);
    let i = the_application_meant_is_moved(plan, made[1].reply->Listed_0, ds, src, r);
    match r {
        RecipeView::Mix { feeds, apps, hear } => {
            let mix = the_mix_is_in_place(plan, tag, made, session, ds, src, feeds, apps, hear);
            assert(moved(made, apps[0].0, mix.0));
            assert(apps =~= seq![apps[0]]);
            (i, mix.0)
        },
        _ => (i, Seq::empty()),
    }
}

/// A plan without audio asks nothing and sets up nothing; without `pactl` a setup
/// fails by that; where the devices cannot be listed it fails as the listing did.
pub proof fn a_setup_needs_pactl(
    plan: PlanView,
    tag: u32,
    made: Seq<PulseCall>,
    r: Result<Option<SessionView>, AudioErrorView>,
)
    requires
        setup_outcome(plan, tag, made, r),
    ensures
        plan.system == SystemAudioMode::Off && !plan.mic <==> r == Ok::<
            Option<SessionView>,
            AudioErrorView,
        >(None),
        plan.system == SystemAudioMode::Off && !plan.mic ==> made.len() == 0,
        made.len() > 0 && made[0].reply == PulseReply::Found(false) ==> r == Err::<
            Option<SessionView>,
            AudioErrorView,
        >(AudioErrorView::PactlMissing) && made.len() == 1,
        made.len() > 1 && made[1].reply is Failed ==> r == Err::<
            Option<SessionView>,
            AudioErrorView,
        >(made[1].reply->Failed_0) && made.len() == 2,
{
}

/// A setup whose recipe is known fails only where one of its steps failed, and as
/// that step did.
pub proof fn a_setup_fails_as_its_step_did(
    plan: PlanView,
    tag: u32,
    made: Seq<PulseCall>,
    e: AudioErrorView,
    default_sink: Seq<char>,
    default_source: Seq<char>,
    recipe: RecipeView,
) -> (i: int)
    requires
        setup_outcome(plan, tag, made, Err(e)),
        recipe_of(plan, made, default_sink, default_source, recipe),
    ensures
        4 <= i < made.len(),
        made[i].reply == PulseReply::Failed(e),
        forall|j: int| 4 <= j < i ==> !((#[trigger] made[j]).reply is Failed),
{
    assert(default_sink =~= name_or_empty(made[2].reply));
    assert(default_source =~= name_or_empty(made[3].reply));
    let rest = made.skip(4);
    match recipe {
        RecipeView::Mix { feeds, apps, hear } => {
            let steps = mix_steps(mix_sink(tag), feeds, apps, hear, default_sink);
            let n = choose|n: int| stopped_at(steps, apps, rest, e, n);
            assert(rest[n] == made[n + 4]);
            assert forall|j: int| 4 <= j < n + 4 implies !((#[trigger] made[j]).reply is Failed) by {
                assert(rest[j - 4] == made[j]);
            }
            n + 4
        },
        _ => 0,
    }
}

// ---------------------------------------------------------------------------
// Taking it down
// ---------------------------------------------------------------------------

/// The modules of a session are those that its setup loaded, in that order.
pub proof fn a_session_lists_its_modules(
    plan: PlanView,
    tag: u32,
    made: Seq<PulseCall>,
    session: SessionView,
)
    requires
        setup_outcome(plan, tag, made, Ok(Some(session))),
    ensures
        session.module_ids == loaded_ids(made.skip(4)),
        forall|i: int|
            0 <= i < made.len() && (#[trigger] made[i]).reply is Loaded && made[i].step is Load
                ==> session.module_ids.contains(made[i].reply->Loaded_0),
        forall|k: int|
            #![trigger session.module_ids[k]]
            0 <= k < session.module_ids.len() ==> exists|i: int|
                0 <= i < made.len() && (#[trigger] made[i]).reply == PulseReply::Loaded(
                    session.module_ids[k],
                ),
{
    let rest = made.skip(4);
    assert(session.module_ids =~= loaded_ids(rest));
    assert forall|i: int|
        0 <= i < made.len() && (#[trigger] made[i]).reply is Loaded
            && made[i].step is Load implies session.module_ids.contains(
        made[i].reply->Loaded_0,
    ) by {
        if i >= 4 {
            assert(rest[i - 4] == made[i]);
            lemma_loaded_all(rest);
        }
    }
    lemma_loaded_all(rest);
    assert forall|k: int|
        #![trigger session.module_ids[k]]
        0 <= k < session.module_ids.len() implies exists|i: int|
        0 <= i < made.len() && (#[trigger] made[i]).reply == PulseReply::Loaded(
            session.module_ids[k],
        ) by {
        let i = choose|i: int|
            0 <= i < rest.len() && (#[trigger] rest[i]).reply == PulseReply::Loaded(
                loaded_ids(rest)[k],
            );
        assert(made[i + 4] == rest[i]);
    }
}

proof fn lemma_loaded_all(calls: Seq<PulseCall>)
    ensures
        forall|i: int|
            0 <= i < calls.len() && (#[trigger] calls[i]).reply is Loaded ==> loaded_ids(
                calls,
            ).contains(calls[i].reply->Loaded_0),
        forall|k: int|
            #![trigger loaded_ids(calls)[k]]
            0 <= k < loaded_ids(calls).len() ==> exists|i: int|
                0 <= i < calls.len() && (#[trigger] calls[i]).reply == PulseReply::Loaded(
                    loaded_ids(calls)[k],
                ),
    decreases calls.len(),
{
    if calls.len() > 0 {
        let rest = calls.drop_last();
        lemma_loaded_all(rest);
        let n = calls.len() - 1;
        let ids = loaded_ids(calls);
        let old_ids = loaded_ids(rest);
        assert forall|i: int|
            0 <= i < calls.len() && (#[trigger] calls[i]).reply is Loaded implies ids.contains(
            calls[i].reply->Loaded_0,
        ) by {
            if i < n {
                assert(rest[i] == calls[i]);
                let k = old_ids.index_of(calls[i].reply->Loaded_0);
                assert(ids[k] == calls[i].reply->Loaded_0);
            } else {
                assert(ids[ids.len() - 1] == calls[i].reply->Loaded_0);
            }
        }
        assert forall|k: int|
            #![trigger ids[k]]
            0 <= k < ids.len() implies exists|i: int|
            0 <= i < calls.len() && (#[trigger] calls[i]).reply == PulseReply::Loaded(ids[k]) by {
            if k < old_ids.len() {
                assert(ids[k] == old_ids[k]);
                let i = choose|i: int|
                    0 <= i < rest.len() && (#[trigger] rest[i]).reply == PulseReply::Loaded(
                        old_ids[k],
                    );
                assert(calls[i] == rest[i]);
            } else {
                assert(calls[n].reply == PulseReply::Loaded(ids[k]));
            }
        }
    }
}

/// Taking a session down asks for each application to go back to its own sink and
/// then for each module to be unloaded, the last one first, and for nothing else.
pub proof fn taking_down_runs_backwards(
    ids: Seq<u32>,
    apps: Seq<(u32, Seq<char>)>,
    calls: Seq<PulseCall>,
)
    requires
        steps_of(calls) == undo_steps(ids, apps),
    ensures
        calls.len() == apps.len() + ids.len(),
        forall|k: int|
            0 <= k < apps.len() ==> calls[apps.len() - 1 - k].step == (PulseStep::Move {
                index: (#[trigger] apps[k]).0,
                sink: apps[k].1,
            }),
        forall|k: int|
            0 <= k < ids.len() ==> calls[apps.len() + ids.len() - 1 - k].step == PulseStep::Unload(
                #[trigger] ids[k],
            ),
{
    let all = undo_steps(ids, apps);
    assert(steps_of(calls).len() == calls.len());
    assert forall|k: int| 0 <= k < apps.len() implies calls[apps.len() - 1 - k].step == (
    PulseStep::Move { index: (#[trigger] apps[k]).0, sink: apps[k].1 }) by {
        assert(steps_of(calls)[apps.len() - 1 - k] == all[apps.len() - 1 - k]);
    }
    assert forall|k: int| 0 <= k < ids.len() implies calls[apps.len() + ids.len() - 1 - k].step
        == PulseStep::Unload(#[trigger] ids[k]) by {
        let j = apps.len() + ids.len() - 1 - k;
        assert(steps_of(calls)[j] == all[j]);
    }
}

/// Each call that fails while a session is taken down is warned of by what could
/// not be undone; where none fails there is no warning.
pub proof fn each_failed_undoing_is_warned_of(calls: Seq<PulseCall>)
    ensures
        (forall|i: int| 0 <= i < calls.len() ==> !((#[trigger] calls[i]).reply is Failed))
            ==> undo_warnings(calls).len() == 0,
        forall|i: int|
            0 <= i < calls.len() && (#[trigger] calls[i]).reply is Failed && calls[i].step is Move
                ==> undo_warnings(calls).contains(
                "restore app #"@ + decimal(calls[i].step->index as nat) + ": "@
                    + calls[i].reply->Failed_0.text(),
            ),
        forall|i: int|
            0 <= i < calls.len() && (#[trigger] calls[i]).reply is Failed
                && calls[i].step is Unload ==> undo_warnings(calls).contains(
                "unload module "@ + decimal(calls[i].step->Unload_0 as nat) + ": "@
                    + calls[i].reply->Failed_0.text(),
            ),
    decreases calls.len(),
{
    if calls.len() > 0 {
        let rest = calls.drop_last();
        let n = calls.len() - 1;
        each_failed_undoing_is_warned_of(rest);
        let now = undo_warnings(calls);
        let before = undo_warnings(rest);
        assert forall|w: Seq<char>| before.contains(w) implies #[trigger] now.contains(w) by {
            let k = before.index_of(w);
            assert(now[k] == w);
        }
        if forall|i: int| 0 <= i < calls.len() ==> !((#[trigger] calls[i]).reply is Failed) {
            assert(!(calls[n].reply is Failed));
            assert forall|i: int| 0 <= i < rest.len() implies !((
            #[trigger] rest[i]).reply is Failed) by {
                assert(rest[i] == calls[i]);
            }
        }
        assert forall|i: int|
            0 <= i < calls.len() && (#[trigger] calls[i]).reply is Failed
                && calls[i].step is Move implies now.contains(
            "restore app #"@ + decimal(calls[i].step->index as nat) + ": "@
                + calls[i].reply->Failed_0.text(),
        ) by {
            let w = "restore app #"@ + decimal(calls[i].step->index as nat) + ": "@
                + calls[i].reply->Failed_0.text();
            if i < n {
                assert(rest[i] == calls[i]);
                assert(before.contains(w));
            } else {
                assert(now[now.len() - 1] == w);
            }
        }
        assert forall|i: int|
            0 <= i < calls.len() && (#[trigger] calls[i]).reply is Failed
                && calls[i].step is Unload implies now.contains(
            "unload module "@ + decimal(calls[i].step->Unload_0 as nat) + ": "@
                + calls[i].reply->Failed_0.text(),
        ) by {
            let w = "unload module "@ + decimal(calls[i].step->Unload_0 as nat) + ": "@
                + calls[i].reply->Failed_0.text();
            if i < n {
                assert(rest[i] == calls[i]);
                assert(before.contains(w));
            } else {
                assert(now[now.len() - 1] == w);
            }
        }
    }
}

} // verus!
