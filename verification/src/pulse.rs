//! Building and taking down the routing that a capture recipe needs.
//!
//! Every call goes through [`Pulse`], which keeps the history of what was asked
//! of the sound server and what it answered.

use vstd::prelude::*;
use vstd::string::*;

use crate::audio::{
    capture_recipe, monitor_of, moved_views, plan_capture, sink_monitor_name, AudioError,
    AudioErrorView, AudioPlan, AudioSession, CaptureRecipe, MovedApp, PlanView, RecipeView,
    SessionView,
};
pub use crate::mixer::{
    done_reply, inventory_reply, load_reply, name_reply, Pulse, PulseCall, PulseCtl, PulseReply,
    PulseStep,
};
use crate::text::{concat2, concat4, decimal, opt_view, u64_to_string, views};

verus! {

// ---------------------------------------------------------------------------
// Histories
// ---------------------------------------------------------------------------

/// `now` is `before` with calls added at its end.
pub open spec fn extends(now: Seq<PulseCall>, before: Seq<PulseCall>) -> bool {
    before.len() <= now.len() && now.take(before.len() as int) == before
}

/// The calls of `now` that came after `before`.
pub open spec fn since(now: Seq<PulseCall>, before: Seq<PulseCall>) -> Seq<PulseCall> {
    now.skip(before.len() as int)
}

/// What was asked in the calls.
pub open spec fn steps_of(calls: Seq<PulseCall>) -> Seq<PulseStep> {
    calls.map_values(|c: PulseCall| c.step)
}

/// The modules that the calls loaded, in order.
pub open spec fn loaded_ids(calls: Seq<PulseCall>) -> Seq<u32>
    decreases calls.len(),
{
    if calls.len() == 0 {
        Seq::empty()
    } else {
        match calls.last().reply {
            PulseReply::Loaded(id) => loaded_ids(calls.drop_last()).push(id),
            _ => loaded_ids(calls.drop_last()),
        }
    }
}

/// The step that puts a moved application back.
pub open spec fn restore_step(m: (u32, Seq<char>)) -> PulseStep {
    PulseStep::Move { index: m.0, sink: m.1 }
}

/// What undoes loaded modules and moved applications: the applications go back
/// first, and both are taken in reverse order.
pub open spec fn undo_steps(ids: Seq<u32>, moved: Seq<(u32, Seq<char>)>) -> Seq<PulseStep> {
    moved.reverse().map_values(|m: (u32, Seq<char>)| restore_step(m)) + ids.reverse().map_values(
        |id: u32| PulseStep::Unload(id),
    )
}

/// The warning that a failed undo call leaves.
pub open spec fn undo_warning(c: PulseCall) -> Option<Seq<char>> {
    match c.reply {
        PulseReply::Failed(e) => match c.step {
            PulseStep::Move { index, sink: _ } => Some(
                "restore app #"@ + decimal(index as nat) + ": "@ + e.text(),
            ),
            PulseStep::Unload(id) => Some(
                "unload module "@ + decimal(id as nat) + ": "@ + e.text(),
            ),
            _ => None,
        },
        _ => None,
    }
}

/// The warnings that the undo calls leave.
pub open spec fn undo_warnings(calls: Seq<PulseCall>) -> Seq<Seq<char>>
    decreases calls.len(),
{
    if calls.len() == 0 {
        Seq::empty()
    } else {
        match undo_warning(calls.last()) {
            Some(w) => undo_warnings(calls.drop_last()).push(w),
            None => undo_warnings(calls.drop_last()),
        }
    }
}

proof fn lemma_pushed(now: Seq<PulseCall>, before: Seq<PulseCall>, start: Seq<PulseCall>, c: PulseCall)
    requires
        extends(before, start),
        now == before.push(c),
    ensures
        extends(now, start),
        since(now, start) == since(before, start).push(c),
        steps_of(since(now, start)) == steps_of(since(before, start)).push(c.step),
        loaded_ids(since(now, start)) == (match c.reply {
            PulseReply::Loaded(id) => loaded_ids(since(before, start)).push(id),
            _ => loaded_ids(since(before, start)),
        }),
        undo_warnings(since(now, start)) == (match undo_warning(c) {
            Some(w) => undo_warnings(since(before, start)).push(w),
            None => undo_warnings(since(before, start)),
        }),
{
    assert(now.take(start.len() as int) =~= start);
    assert(since(now, start) =~= since(before, start).push(c));
    assert(since(now, start).drop_last() =~= since(before, start));
    assert(steps_of(since(now, start)) =~= steps_of(since(before, start)).push(c.step));
}

fn undo<P: PulseCtl>(pulse: &mut Pulse<P>, ids: &Vec<u32>, moved: &Vec<MovedApp>) -> (r: Vec<String>)
    ensures
        extends(final(pulse).calls(), old(pulse).calls()),
        steps_of(since(final(pulse).calls(), old(pulse).calls())) == undo_steps(
            ids@,
            moved_views(moved@),
        ),
        views(r@) == undo_warnings(since(final(pulse).calls(), old(pulse).calls())),
{
    let mut warnings: Vec<String> = Vec::new();
    let ghost start = pulse.calls();
    let ghost all = undo_steps(ids@, moved_views(moved@));
    let mut i: usize = moved.len();
    proof {
        assert(pulse.calls().take(start.len() as int) =~= start);
        assert(since(start, start) =~= Seq::<PulseCall>::empty());
        assert(steps_of(since(start, start)) =~= all.take(0));
        assert(views(warnings@) =~= undo_warnings(since(start, start)));
    }
    while i > 0
        invariant
            i <= moved.len(),
            all == undo_steps(ids@, moved_views(moved@)),
            extends(pulse.calls(), start),
            steps_of(since(pulse.calls(), start)) == all.take(moved.len() - i),
            views(warnings@) == undo_warnings(since(pulse.calls(), start)),
        decreases i,
    {
        let m = &moved[i - 1];
        let ghost before = pulse.calls();
        let ghost n = moved.len() - i;
        let r = pulse.move_sink_input(m.index, m.original_sink.as_str());
        proof {
            let c = PulseCall {
                step: PulseStep::Move { index: m.index, sink: m.original_sink@ },
                reply: done_reply(r),
            };
            lemma_pushed(pulse.calls(), before, start, c);
            assert(all[n] == c.step);
            assert(all.take(n + 1) =~= all.take(n).push(c.step));
        }
        if let Err(e) = r {
            let ghost w0 = warnings@;
            let w = concat4(
                "restore app #",
                u64_to_string(m.index as u64).as_str(),
                ": ",
                e.to_text().as_str(),
            );
            warnings.push(w);
            assert(views(warnings@) =~= views(w0).push(w@));
        }
        i = i - 1;
    }
    let mut j: usize = ids.len();
    while j > 0
        invariant
            j <= ids.len(),
            all == undo_steps(ids@, moved_views(moved@)),
            extends(pulse.calls(), start),
            steps_of(since(pulse.calls(), start)) == all.take(moved.len() + ids.len() - j),
            views(warnings@) == undo_warnings(since(pulse.calls(), start)),
        decreases j,
    {
        let id: u32 = ids[j - 1];
        let ghost before = pulse.calls();
        let ghost n = moved.len() + ids.len() - j;
        let r = pulse.unload_module(id);
        proof {
            let c = PulseCall { step: PulseStep::Unload(id), reply: done_reply(r) };
            lemma_pushed(pulse.calls(), before, start, c);
            assert(all[n] == c.step);
            assert(all.take(n + 1) =~= all.take(n).push(c.step));
        }
        if let Err(e) = r {
            let ghost w0 = warnings@;
            let w = concat4(
                "unload module ",
                u64_to_string(id as u64).as_str(),
                ": ",
                e.to_text().as_str(),
            );
            warnings.push(w);
            assert(views(warnings@) =~= views(w0).push(w@));
        }
        j = j - 1;
    }
    assert(all.take(all.len() as int) =~= all);
    warnings
}

/// Take down a session as far as possible; the failures become warnings.
pub fn teardown_session_with<P: PulseCtl>(session: &AudioSession, pulse: &mut Pulse<P>) -> (r: Vec<
    String,
>)
    ensures
        extends(final(pulse).calls(), old(pulse).calls()),
        steps_of(since(final(pulse).calls(), old(pulse).calls())) == undo_steps(
            session@.module_ids,
            session@.moved_apps,
        ),
        views(r@) == undo_warnings(since(final(pulse).calls(), old(pulse).calls())),
{
    undo(pulse, &session.module_ids, &session.moved_apps)
}

// ---------------------------------------------------------------------------
// Building a mix
// ---------------------------------------------------------------------------

/// Name of the null sink of the process `tag`.
pub open spec fn mix_sink(tag: u32) -> Seq<char> {
    "hyprcap_mix_"@ + decimal(tag as nat)
}

/// The step that creates the null sink.
pub open spec fn null_sink_step(name: Seq<char>) -> PulseStep {
    PulseStep::Load {
        module: "module-null-sink"@,
        args: "sink_name="@ + name + " sink_properties=device.description=HyprcapMix"@,
    }
}

/// The step that feeds `source` into `sink`.
pub open spec fn loopback_step(source: Seq<char>, sink: Seq<char>) -> PulseStep {
    PulseStep::Load {
        module: "module-loopback"@,
        args: "source="@ + source + " sink="@ + sink + " latency_msec=20"@,
    }
}

/// The sink on which moved applications stay audible; empty if there is none.
pub open spec fn hear_target(hear: Option<Seq<char>>, default_sink: Seq<char>) -> Seq<char> {
    if hear is Some && hear->0.len() > 0 {
        hear->0
    } else {
        default_sink
    }
}

/// The steps that build a mix: the null sink, the applications moved onto it,
/// each feed looped into it, and what was moved looped back to the speakers.
pub open spec fn mix_steps(
    name: Seq<char>,
    feeds: Seq<Seq<char>>,
    apps: Seq<(u32, Seq<char>)>,
    hear: Option<Seq<char>>,
    default_sink: Seq<char>,
) -> Seq<PulseStep> {
    let target = hear_target(hear, default_sink);
    seq![null_sink_step(name)] + apps.map_values(
        |a: (u32, Seq<char>)| PulseStep::Move { index: a.0, sink: name },
    ) + feeds.map_values(|f: Seq<char>| loopback_step(f, name)) + (if apps.len() > 0 && target.len()
        > 0 {
        seq![loopback_step(monitor_of(name), target)]
    } else {
        Seq::empty()
    })
}

/// The first `n` calls carried out the first `n` steps, and each worked.
pub open spec fn carried_out(steps: Seq<PulseStep>, made: Seq<PulseCall>, n: int) -> bool {
    &&& n <= steps.len()
    &&& n <= made.len()
    &&& forall|i: int|
        0 <= i < n ==> (#[trigger] made[i]).step == steps[i] && !(made[i].reply is Failed)
}

/// The applications moved by the first `n` steps.
pub open spec fn moved_by(apps: Seq<(u32, Seq<char>)>, n: int) -> Seq<(u32, Seq<char>)> {
    apps.take(
        if n <= 1 {
            0
        } else if n - 1 <= apps.len() {
            n - 1
        } else {
            apps.len() as int
        },
    )
}

/// The calls `made` stopped at step `n`, which failed with `e`, and then undid
/// the steps before it.
pub open spec fn stopped_at(
    steps: Seq<PulseStep>,
    apps: Seq<(u32, Seq<char>)>,
    made: Seq<PulseCall>,
    e: AudioErrorView,
    n: int,
) -> bool {
    &&& 0 <= n < steps.len()
    &&& n < made.len()
    &&& carried_out(steps, made, n)
    &&& made[n].step == steps[n]
    &&& made[n].reply == PulseReply::Failed(e)
    &&& steps_of(made.skip(n + 1)) == undo_steps(loaded_ids(made.take(n)), moved_by(apps, n))
}

/// The views of the result of a setup.
pub open spec fn setup_result(
    r: Result<Option<AudioSession>, AudioError>,
) -> Result<Option<SessionView>, AudioErrorView> {
    match r {
        Ok(Some(s)) => Ok(Some(s@)),
        Ok(None) => Ok(None),
        Err(e) => Err(e@),
    }
}

/// How building a mix ends: either every step worked and the session lists what
/// was loaded and moved, or a step failed and what came before it was undone.
pub open spec fn mix_outcome(
    name: Seq<char>,
    steps: Seq<PulseStep>,
    apps: Seq<(u32, Seq<char>)>,
    made: Seq<PulseCall>,
    r: Result<Option<SessionView>, AudioErrorView>,
) -> bool {
    match r {
        Ok(session) => {
            &&& made.len() == steps.len()
            &&& carried_out(steps, made, steps.len() as int)
            &&& session == Some(
                SessionView {
                    capture_source: monitor_of(name),
                    module_ids: loaded_ids(made),
                    moved_apps: apps,
                },
            )
        },
        Err(e) => exists|n: int| stopped_at(steps, apps, made, e, n),
    }
}

proof fn lemma_stopped(
    steps: Seq<PulseStep>,
    apps: Seq<(u32, Seq<char>)>,
    start: Seq<PulseCall>,
    mid: Seq<PulseCall>,
    now: Seq<PulseCall>,
    e: AudioErrorView,
    n: int,
)
    requires
        extends(mid, start),
        extends(now, mid),
        0 <= n < steps.len(),
        since(mid, start).len() == n + 1,
        carried_out(steps, since(mid, start), n),
        since(mid, start)[n].step == steps[n],
        since(mid, start)[n].reply == PulseReply::Failed(e),
        steps_of(since(now, mid)) == undo_steps(
            loaded_ids(since(mid, start).take(n)),
            moved_by(apps, n),
        ),
    ensures
        extends(now, start),
        stopped_at(steps, apps, since(now, start), e, n),
{
    let made = since(now, start);
    assert(now.take(start.len() as int) =~= now.take(mid.len() as int).take(start.len() as int));
    assert(made.take(n + 1) =~= since(mid, start));
    assert forall|i: int| 0 <= i <= n implies made[i] == since(mid, start)[i] by {
        assert(made[i] == made.take(n + 1)[i]);
    }
    assert(made.take(n) =~= since(mid, start).take(n));
    assert(made.skip(n + 1) =~= since(now, mid));
}

fn setup_mix<P: PulseCtl>(
    pulse: &mut Pulse<P>,
    feed_sources: Vec<String>,
    apps: Vec<MovedApp>,
    hear_sink: Option<String>,
    default_sink: &str,
    tag: u32,
) -> (r: Result<Option<AudioSession>, AudioError>)
    ensures
        extends(final(pulse).calls(), old(pulse).calls()),
        mix_outcome(
            mix_sink(tag),
            mix_steps(
                mix_sink(tag),
                views(feed_sources@),
                moved_views(apps@),
                opt_view(hear_sink),
                default_sink@,
            ),
            moved_views(apps@),
            since(final(pulse).calls(), old(pulse).calls()),
            setup_result(r),
        ),
{
    let ghost start = pulse.calls();
    let sink_name = concat2("hyprcap_mix_", u64_to_string(tag as u64).as_str());
    let ghost name = sink_name@;
    let ghost feeds = views(feed_sources@);
    let ghost moves = moved_views(apps@);
    let ghost steps = mix_steps(name, feeds, moves, opt_view(hear_sink), default_sink@);
    proof {
        assert(extends(start, start)) by {
            assert(start.take(start.len() as int) =~= start);
        }
        assert(since(start, start) =~= Seq::<PulseCall>::empty());
    }
    let mut null_args = concat2("sink_name=", sink_name.as_str());
    null_args.append(" sink_properties=device.description=HyprcapMix");
    let null_result = pulse.load_module("module-null-sink", null_args.as_str());
    let ghost first = PulseCall { step: null_sink_step(name), reply: load_reply(null_result) };
    proof {
        lemma_pushed(pulse.calls(), start, start, first);
        assert(steps[0] == first.step);
    }
    let null_id: u32 = match null_result {
        Ok(id) => id,
        Err(e) => {
            proof {
                let now = pulse.calls();
                assert(since(now, now) =~= Seq::<PulseCall>::empty());
                assert(now.take(now.len() as int) =~= now);
                assert(since(now, start).take(0) =~= Seq::<PulseCall>::empty());
                assert(undo_steps(Seq::<u32>::empty(), moved_by(moves, 0)) =~= Seq::<
                    PulseStep,
                >::empty());
                assert(steps_of(since(now, now)) =~= Seq::<PulseStep>::empty());
                lemma_stopped(steps, moves, start, now, now, e@, 0);
            }
            return Err(e);
        },
    };
    let mut module_ids: Vec<u32> = Vec::new();
    module_ids.push(null_id);
    let mut moved: Vec<MovedApp> = Vec::new();
    let mut i: usize = 0;
    proof {
        assert(module_ids@ =~= loaded_ids(since(pulse.calls(), start)));
        assert(moved_views(moved@) =~= moves.take(0));
    }
    while i < apps.len()
        invariant
            i <= apps.len(),
            name == sink_name@,
            feeds == views(feed_sources@),
            moves == moved_views(apps@),
            steps == mix_steps(name, feeds, moves, opt_view(hear_sink), default_sink@),
            start == old(pulse).calls(),
            name == mix_sink(tag),
            extends(pulse.calls(), start),
            since(pulse.calls(), start).len() == 1 + i,
            carried_out(steps, since(pulse.calls(), start), 1 + i),
            module_ids@ == loaded_ids(since(pulse.calls(), start)),
            moved_views(moved@) == moves.take(i as int),
        decreases apps.len() - i,
    {
        let ghost before = pulse.calls();
        let result = pulse.move_sink_input(apps[i].index, sink_name.as_str());
        let ghost c = PulseCall {
            step: PulseStep::Move { index: apps@[i as int].index, sink: name },
            reply: done_reply(result),
        };
        proof {
            lemma_pushed(pulse.calls(), before, start, c);
            assert(moves[i as int] == apps@[i as int]@);
            assert(steps[1 + i] == c.step);
        }
        if let Err(e) = result {
            let ghost mid = pulse.calls();
            undo(pulse, &module_ids, &moved);
            proof {
                assert(since(mid, start).take(1 + i) =~= since(before, start));
                assert(moved_by(moves, 1 + i) == moves.take(i as int));
                lemma_stopped(steps, moves, start, mid, pulse.calls(), e@, 1 + i);
            }
            return Err(e);
        }
        let ghost moved0 = moved@;
        let one = MovedApp {
            index: apps[i].index,
            original_sink: apps[i].original_sink.clone(),
        };
        moved.push(one);
        proof {
            assert(moved_views(moved@) =~= moved_views(moved0).push(one@));
            assert(moves.take(i + 1) =~= moves.take(i as int).push(moves[i as int]));
        }
        i = i + 1;
    }
    assert(moves.take(moves.len() as int) =~= moves);
    let mut j: usize = 0;
    while j < feed_sources.len()
        invariant
            j <= feed_sources.len(),
            name == sink_name@,
            feeds == views(feed_sources@),
            moves == moved_views(apps@),
            steps == mix_steps(name, feeds, moves, opt_view(hear_sink), default_sink@),
            start == old(pulse).calls(),
            name == mix_sink(tag),
            extends(pulse.calls(), start),
            since(pulse.calls(), start).len() == 1 + apps.len() + j,
            carried_out(steps, since(pulse.calls(), start), 1 + apps.len() + j),
            module_ids@ == loaded_ids(since(pulse.calls(), start)),
            moved_views(moved@) == moves,
        decreases feed_sources.len() - j,
    {
        let ghost before = pulse.calls();
        let mut args = concat4("source=", feed_sources[j].as_str(), " sink=", sink_name.as_str());
        args.append(" latency_msec=20");
        let result = pulse.load_module("module-loopback", args.as_str());
        let ghost n = 1 + apps.len() + j;
        let ghost c = PulseCall {
            step: loopback_step(feed_sources@[j as int]@, name),
            reply: load_reply(result),
        };
        proof {
            lemma_pushed(pulse.calls(), before, start, c);
            assert(feeds[j as int] == feed_sources@[j as int]@);
            assert(steps[n] == c.step);
        }
        match result {
            Ok(id) => {
                module_ids.push(id);
            },
            Err(e) => {
                let ghost mid = pulse.calls();
                undo(pulse, &module_ids, &moved);
                proof {
                    assert(since(mid, start).take(n) =~= since(before, start));
                    assert(moved_by(moves, n) =~= moves);
                    lemma_stopped(steps, moves, start, mid, pulse.calls(), e@, n);
                }
                return Err(e);
            },
        }
        j = j + 1;
    }
    if apps.len() > 0 {
        let hear = match &hear_sink {
            Some(h) => if h.as_str().is_empty() {
                default_sink
            } else {
                h.as_str()
            },
            None => default_sink,
        };
        if !hear.is_empty() {
            let ghost before = pulse.calls();
            let monitor = sink_monitor_name(sink_name.as_str());
            let mut args = concat4("source=", monitor.as_str(), " sink=", hear);
            args.append(" latency_msec=20");
            let result = pulse.load_module("module-loopback", args.as_str());
            let ghost n = 1 + apps.len() + feed_sources.len();
            let ghost c = PulseCall {
                step: loopback_step(monitor_of(name), hear@),
                reply: load_reply(result),
            };
            proof {
                lemma_pushed(pulse.calls(), before, start, c);
                assert(hear@ == hear_target(opt_view(hear_sink), default_sink@));
                assert(steps.len() == n + 1);
                assert(steps[n] == c.step);
            }
            match result {
                Ok(id) => {
                    module_ids.push(id);
                },
                Err(e) => {
                    let ghost mid = pulse.calls();
                    undo(pulse, &module_ids, &moved);
                    proof {
                        assert(since(mid, start).take(n) =~= since(before, start));
                        assert(moved_by(moves, n) =~= moves);
                        lemma_stopped(steps, moves, start, mid, pulse.calls(), e@, n);
                    }
                    return Err(e);
                },
            }
        }
    }
    Ok(
        Some(
            AudioSession {
                capture_source: sink_monitor_name(sink_name.as_str()),
                module_ids,
                moved_apps: moved,
            },
        ),
    )
}

// ---------------------------------------------------------------------------
// Setting up a session
// ---------------------------------------------------------------------------

/// The name that a call returned; empty where it failed.
pub open spec fn name_or_empty(reply: PulseReply) -> Seq<char> {
    match reply {
        PulseReply::Name(n) => n,
        _ => Seq::empty(),
    }
}

/// How carrying out a recipe ends.
pub open spec fn recipe_outcome(
    recipe: Result<RecipeView, AudioErrorView>,
    default_sink: Seq<char>,
    tag: u32,
    made: Seq<PulseCall>,
    r: Result<Option<SessionView>, AudioErrorView>,
) -> bool {
    match recipe {
        Err(e) => made.len() == 0 && r == Err::<Option<SessionView>, AudioErrorView>(e),
        Ok(RecipeView::Nothing) => made.len() == 0 && r == Ok::<
            Option<SessionView>,
            AudioErrorView,
        >(None),
        Ok(RecipeView::Direct(source)) => made.len() == 0 && r == Ok::<
            Option<SessionView>,
            AudioErrorView,
        >(
            Some(
                SessionView {
                    capture_source: source,
                    module_ids: Seq::empty(),
                    moved_apps: Seq::empty(),
                },
            ),
        ),
        Ok(RecipeView::Mix { feeds, apps, hear }) => mix_outcome(
            mix_sink(tag),
            mix_steps(mix_sink(tag), feeds, apps, hear, default_sink),
            apps,
            made,
            r,
        ),
    }
}

/// How setting up a session ends, given the calls made and their answers.
///
/// A plan without audio asks nothing. Otherwise `pactl` is looked for, the
/// inventory and the defaults are read, and the recipe for them is carried out.
pub open spec fn setup_outcome(
    plan: PlanView,
    tag: u32,
    made: Seq<PulseCall>,
    r: Result<Option<SessionView>, AudioErrorView>,
) -> bool {
    if !plan.records() {
        made.len() == 0 && r == Ok::<Option<SessionView>, AudioErrorView>(None)
    } else {
        &&& made.len() >= 1
        &&& made[0].step == PulseStep::Probe("pactl"@)
        &&& match made[0].reply {
            PulseReply::Found(true) => {
                &&& made.len() >= 2
                &&& made[1].step == PulseStep::Inventory
                &&& match made[1].reply {
                    PulseReply::Listed(inv) => {
                        &&& made.len() >= 4
                        &&& made[2].step == PulseStep::DefaultSink
                        &&& made[3].step == PulseStep::DefaultSource
                        &&& recipe_outcome(
                            capture_recipe(
                                plan,
                                inv,
                                name_or_empty(made[2].reply),
                                name_or_empty(made[3].reply),
                            ),
                            name_or_empty(made[2].reply),
                            tag,
                            made.skip(4),
                            r,
                        )
                    },
                    PulseReply::Failed(e) => made.len() == 2 && r == Err::<
                        Option<SessionView>,
                        AudioErrorView,
                    >(e),
                    _ => false,
                }
            },
            PulseReply::Found(false) => made.len() == 1 && r == Err::<
                Option<SessionView>,
                AudioErrorView,
            >(AudioErrorView::PactlMissing),
            _ => false,
        }
    }
}

/// Set up the routing for a plan; `tag` (the process id) names the null sink.
pub fn setup_session_with<P: PulseCtl>(plan: &AudioPlan, pulse: &mut Pulse<P>, tag: u32) -> (r:
    Result<Option<AudioSession>, AudioError>)
    ensures
        extends(final(pulse).calls(), old(pulse).calls()),
        setup_outcome(
            plan@,
            tag,
            since(final(pulse).calls(), old(pulse).calls()),
            setup_result(r),
        ),
{
    let ghost start = pulse.calls();
    proof {
        assert(start.take(start.len() as int) =~= start);
        assert(since(start, start) =~= Seq::<PulseCall>::empty());
    }
    if !plan.enabled() {
        return Ok(None);
    }
    let found = pulse.command_exists("pactl");
    let ghost c0 = PulseCall {
        step: PulseStep::Probe("pactl"@),
        reply: PulseReply::Found(found),
    };
    let ghost h1 = pulse.calls();
    proof {
        lemma_pushed(h1, start, start, c0);
    }
    if !found {
        return Err(AudioError::PactlMissing);
    }
    let listed = pulse.list_inventory();
    let ghost c1 = PulseCall { step: PulseStep::Inventory, reply: inventory_reply(listed) };
    let ghost h2 = pulse.calls();
    proof {
        lemma_pushed(h2, h1, start, c1);
    }
    let inv = match listed {
        Ok(inv) => inv,
        Err(e) => {
            return Err(e);
        },
    };
    let sink_answer = pulse.default_sink();
    let ghost c2 = PulseCall { step: PulseStep::DefaultSink, reply: name_reply(sink_answer) };
    let ghost h3 = pulse.calls();
    let source_answer = pulse.default_source();
    let ghost c3 = PulseCall { step: PulseStep::DefaultSource, reply: name_reply(source_answer) };
    let ghost h4 = pulse.calls();
    proof {
        lemma_pushed(h3, h2, start, c2);
        lemma_pushed(h4, h3, start, c3);
        assert(since(h4, start) =~= seq![c0, c1, c2, c3]);
        assert(since(h4, start).skip(4) =~= Seq::<PulseCall>::empty());
    }
    let default_sink = match sink_answer {
        Ok(s) => s,
        Err(_) => String::new(),
    };
    let default_source = match source_answer {
        Ok(s) => s,
        Err(_) => String::new(),
    };
    let recipe = plan_capture(plan, &inv, default_sink.as_str(), default_source.as_str());
    match recipe {
        Err(e) => Err(e),
        Ok(CaptureRecipe::Nothing) => Ok(None),
        Ok(CaptureRecipe::Direct(source)) => {
            let session = AudioSession {
                capture_source: source,
                module_ids: Vec::new(),
                moved_apps: Vec::new(),
            };
            assert(session@.module_ids =~= Seq::<u32>::empty());
            assert(session@.moved_apps =~= Seq::<(u32, Seq<char>)>::empty());
            Ok(Some(session))
        },
        Ok(CaptureRecipe::Mix { feed_sources, apps, hear_sink }) => {
            let r = setup_mix(pulse, feed_sources, apps, hear_sink, default_sink.as_str(), tag);
            proof {
                let now = pulse.calls();
                assert(now.take(start.len() as int) =~= now.take(h4.len() as int).take(
                    start.len() as int,
                ));
                assert(since(now, start).take(4) =~= since(h4, start));
                assert forall|i: int| 0 <= i < 4 implies since(now, start)[i] == since(h4, start)[i]
                by {
                    assert(since(now, start)[i] == since(now, start).take(4)[i]);
                }
                assert(since(now, start).skip(4) =~= since(now, h4));
            }
            r
        },
    }
}

// ---------------------------------------------------------------------------
// Laws
// ---------------------------------------------------------------------------

/// `step` is asked somewhere after position `at`.
pub open spec fn asked_after(calls: Seq<PulseCall>, at: int, step: PulseStep) -> bool {
    exists|j: int| at < j < calls.len() && (#[trigger] calls[j]).step == step
}

/// `step` is asked somewhere.
pub open spec fn asked(calls: Seq<PulseCall>, step: PulseStep) -> bool {
    exists|j: int| 0 <= j < calls.len() && (#[trigger] calls[j]).step == step
}

proof fn lemma_loaded(calls: Seq<PulseCall>, i: int) -> (k: int)
    requires
        0 <= i < calls.len(),
        calls[i].reply is Loaded,
    ensures
        0 <= k < loaded_ids(calls).len(),
        loaded_ids(calls)[k] == calls[i].reply->Loaded_0,
    decreases calls.len(),
{
    if i == calls.len() - 1 {
        loaded_ids(calls).len() - 1
    } else {
        assert(calls.drop_last()[i] == calls[i]);
        lemma_loaded(calls.drop_last(), i)
    }
}

proof fn lemma_undone(
    calls: Seq<PulseCall>,
    from: int,
    ids: Seq<u32>,
    moved: Seq<(u32, Seq<char>)>,
)
    requires
        0 <= from <= calls.len(),
        steps_of(calls.skip(from)) == undo_steps(ids, moved),
    ensures
        forall|k: int| 0 <= k < ids.len() ==> asked_after(
            calls,
            from - 1,
            PulseStep::Unload(#[trigger] ids[k]),
        ),
        forall|k: int| 0 <= k < moved.len() ==> asked_after(
            calls,
            from - 1,
            restore_step(#[trigger] moved[k]),
        ),
{
    let tail = calls.skip(from);
    let all = undo_steps(ids, moved);
    assert(steps_of(tail).len() == tail.len());
    assert forall|k: int| 0 <= k < ids.len() implies asked_after(
        calls,
        from - 1,
        PulseStep::Unload(#[trigger] ids[k]),
    ) by {
        let j = moved.len() + (ids.len() - 1 - k);
        assert(all[j] == PulseStep::Unload(ids[k]));
        assert(steps_of(tail)[j] == calls[from + j].step);
    }
    assert forall|k: int| 0 <= k < moved.len() implies asked_after(
        calls,
        from - 1,
        restore_step(#[trigger] moved[k]),
    ) by {
        let j = moved.len() - 1 - k;
        assert(all[j] == restore_step(moved[k]));
        assert(steps_of(tail)[j] == calls[from + j].step);
    }
}

/// A setup that fails leaves no module behind: every module that it loaded is
/// unloaded again.
pub proof fn failed_setup_unloads(
    plan: PlanView,
    tag: u32,
    made: Seq<PulseCall>,
    e: AudioErrorView,
)
    requires
        setup_outcome(plan, tag, made, Err(e)),
    ensures
        forall|i: int|
            0 <= i < made.len() && (#[trigger] made[i]).step is Load && made[i].reply is Loaded
                ==> asked_after(made, i, PulseStep::Unload(made[i].reply->Loaded_0)),
{
    if made.len() > 4 {
        let ds = name_or_empty(made[2].reply);
        let rest = made.skip(4);
        match capture_recipe(plan, made[1].reply->Listed_0, ds, name_or_empty(made[3].reply)) {
            Ok(RecipeView::Mix { feeds, apps, hear }) => {
                let steps = mix_steps(mix_sink(tag), feeds, apps, hear, ds);
                let n = choose|n: int| stopped_at(steps, apps, rest, e, n);
                let ids = loaded_ids(rest.take(n));
                assert(rest.skip(n + 1) =~= made.skip(n + 5));
                lemma_undone(made, n + 5, ids, moved_by(apps, n));
                assert forall|i: int|
                    0 <= i < made.len() && (#[trigger] made[i]).step is Load
                        && made[i].reply is Loaded implies asked_after(
                    made,
                    i,
                    PulseStep::Unload(made[i].reply->Loaded_0),
                ) by {
                    if i >= 4 && i - 4 < n {
                        assert(rest.take(n)[i - 4] == made[i]);
                        let k = lemma_loaded(rest.take(n), i - 4);
                        assert(asked_after(made, n + 4, PulseStep::Unload(ids[k])));
                    } else if i - 4 == n {
                        assert(rest[n] == made[i]);
                    } else if i - 4 > n {
                        assert(rest.skip(n + 1)[i - 5 - n] == made[i]);
                        lemma_undo_loads_nothing(
                            rest.skip(n + 1),
                            ids,
                            moved_by(apps, n),
                            i - 5 - n,
                        );
                    }
                }
            },
            _ => {},
        }
    }
}

/// A setup that fails leaves no application behind on the mix: each one moved
/// before the failure is put back on its own sink.
pub proof fn failed_setup_restores(
    plan: PlanView,
    tag: u32,
    made: Seq<PulseCall>,
    e: AudioErrorView,
    feeds: Seq<Seq<char>>,
    apps: Seq<(u32, Seq<char>)>,
    hear: Option<Seq<char>>,
)
    requires
        setup_outcome(plan, tag, made, Err(e)),
        made.len() > 4,
        capture_recipe(
            plan,
            made[1].reply->Listed_0,
            name_or_empty(made[2].reply),
            name_or_empty(made[3].reply),
        ) == Ok::<RecipeView, AudioErrorView>(RecipeView::Mix { feeds, apps, hear }),
    ensures
        forall|k: int|
            #![trigger apps[k]]
            0 <= k < apps.len() && 5 + k < made.len() && (forall|j: int|
                4 <= j <= 5 + k ==> !((#[trigger] made[j]).reply is Failed)) ==> {
                &&& made[5 + k].step == (PulseStep::Move { index: apps[k].0, sink: mix_sink(tag) })
                &&& asked_after(made, 5 + k, restore_step(apps[k]))
            },
{
    let ds = name_or_empty(made[2].reply);
    let rest = made.skip(4);
    let steps = mix_steps(mix_sink(tag), feeds, apps, hear, ds);
    let n = choose|n: int| stopped_at(steps, apps, rest, e, n);
    let m = moved_by(apps, n);
    assert(rest.skip(n + 1) =~= made.skip(n + 5));
    lemma_undone(made, n + 5, loaded_ids(rest.take(n)), m);
    assert forall|k: int|
        #![trigger apps[k]]
        0 <= k < apps.len() && 5 + k < made.len() && (forall|j: int|
            4 <= j <= 5 + k ==> !((#[trigger] made[j]).reply is Failed)) implies {
        &&& made[5 + k].step == (PulseStep::Move { index: apps[k].0, sink: mix_sink(tag) })
        &&& asked_after(made, 5 + k, restore_step(apps[k]))
    } by {
        assert(rest[n] == made[4 + n]);
        assert(1 + k < n);
        assert(rest[1 + k] == made[5 + k]);
        assert(steps[1 + k] == (PulseStep::Move { index: apps[k].0, sink: mix_sink(tag) }));
        assert(m[k] == apps[k]);
        assert(asked_after(made, n + 4, restore_step(m[k])));
    }
}

proof fn lemma_undo_loads_nothing(
    tail: Seq<PulseCall>,
    ids: Seq<u32>,
    moved: Seq<(u32, Seq<char>)>,
    i: int,
)
    requires
        steps_of(tail) == undo_steps(ids, moved),
        0 <= i < tail.len(),
    ensures
        !(tail[i].step is Load),
{
    assert(steps_of(tail).len() == tail.len());
    assert(steps_of(tail)[i] == tail[i].step);
    let restores = moved.reverse().map_values(|m: (u32, Seq<char>)| restore_step(m));
    let unloads = ids.reverse().map_values(|id: u32| PulseStep::Unload(id));
    if i < restores.len() {
        assert(undo_steps(ids, moved)[i] == restores[i]);
    } else {
        assert(undo_steps(ids, moved)[i] == unloads[i - restores.len()]);
    }
}

/// Taking down a session undoes its setup: every module that the setup loaded
/// is unloaded, and every application that it moved is put back on its sink.
pub proof fn teardown_undoes_setup(
    plan: PlanView,
    tag: u32,
    setup: Seq<PulseCall>,
    session: SessionView,
    teardown: Seq<PulseCall>,
)
    requires
        setup_outcome(plan, tag, setup, Ok(Some(session))),
        steps_of(teardown) == undo_steps(session.module_ids, session.moved_apps),
    ensures
        forall|i: int|
            0 <= i < setup.len() && (#[trigger] setup[i]).step is Load && setup[i].reply is Loaded
                ==> asked(
                teardown,
                PulseStep::Unload(setup[i].reply->Loaded_0),
            ),
        forall|k: int|
            0 <= k < session.moved_apps.len() ==> asked(
                teardown,
                restore_step(#[trigger] session.moved_apps[k]),
            ),
{
    assert(teardown.skip(0) =~= teardown);
    lemma_undone(teardown, 0, session.module_ids, session.moved_apps);
    let rest = setup.skip(4);
    assert forall|i: int|
        0 <= i < setup.len() && (#[trigger] setup[i]).step is Load
            && setup[i].reply is Loaded implies asked(
        teardown,
        PulseStep::Unload(setup[i].reply->Loaded_0),
    ) by {
        if i >= 4 {
            assert(rest[i - 4] == setup[i]);
            let k = lemma_loaded(rest, i - 4);
            assert(asked_after(teardown, -1, PulseStep::Unload(session.module_ids[k])));
            let j = choose|j: int|
                -1 < j < teardown.len() && (#[trigger] teardown[j]).step == PulseStep::Unload(
                    session.module_ids[k],
                );
            assert(teardown[j].step == PulseStep::Unload(setup[i].reply->Loaded_0));
        }
    }
    assert forall|k: int| 0 <= k < session.moved_apps.len() implies asked(
        teardown,
        restore_step(#[trigger] session.moved_apps[k]),
    ) by {
        assert(asked_after(teardown, -1, restore_step(session.moved_apps[k])));
        let j = choose|j: int|
            -1 < j < teardown.len() && (#[trigger] teardown[j]).step == restore_step(
                session.moved_apps[k],
            );
        assert(teardown[j].step == restore_step(session.moved_apps[k]));
    }
}

} // verus!
