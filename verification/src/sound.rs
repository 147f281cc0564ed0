//! The audio controls: what they offer for an inventory, what is selected for a
//! plan, and the plan that a selection makes.

use vstd::prelude::*;
use vstd::string::*;

use crate::audio::{
    is_mic, AppView, AudioInventory, AudioPlan, AudioSourceInfo, InventoryView, PlanView, SinkView,
    SourceView, SystemAudioMode,
};
use crate::seqs::{index_where, index_where_is};
use crate::text::{concat2, concat3, eq_ignore_ascii_case, same_ignoring_case, str_eq, views};

verus! {

/// The system mode at an index of its control.
pub open spec fn mode_at(index: u32) -> SystemAudioMode {
    if index == 1 {
        SystemAudioMode::All
    } else if index == 2 {
        SystemAudioMode::App
    } else {
        SystemAudioMode::Off
    }
}

/// The index of a system mode in its control.
pub fn system_mode_index(mode: SystemAudioMode) -> (r: u32)
    ensures
        mode_at(r) == mode,
        r <= 2,
{
    match mode {
        SystemAudioMode::Off => 0,
        SystemAudioMode::All => 1,
        SystemAudioMode::App => 2,
    }
}

/// The system mode at an index of its control.
pub fn system_mode_at(index: u32) -> (r: SystemAudioMode)
    ensures
        r == mode_at(index),
{
    if index == 1 {
        SystemAudioMode::All
    } else if index == 2 {
        SystemAudioMode::App
    } else {
        SystemAudioMode::Off
    }
}

/// A device's label; the default one is marked.
pub open spec fn device_label(description: Seq<char>, is_default: bool) -> Seq<char> {
    if is_default {
        description + " ★"@
    } else {
        description
    }
}

fn label_device(description: &str, is_default: bool) -> (r: String)
    ensures
        r@ == device_label(description@, is_default),
{
    if is_default {
        concat2(description, " ★")
    } else {
        description.to_owned()
    }
}

/// An application's label, with what it plays where that is known.
pub open spec fn app_label(a: AppView) -> Seq<char> {
    match a.media_name {
        Some(m) => a.name + " — "@ + m,
        None => a.name,
    }
}

/// The labels of the second control: the sinks behind the default one, or the
/// applications.
pub open spec fn detail_labels_of(mode: SystemAudioMode, inv: InventoryView) -> Seq<Seq<char>> {
    match mode {
        SystemAudioMode::All => seq!["Default output"@] + inv.sinks.map_values(
            |s: SinkView| device_label(s.description, s.is_default),
        ),
        SystemAudioMode::App => if inv.apps.len() == 0 {
            seq!["(no apps playing)"@]
        } else {
            inv.apps.map_values(|a: AppView| app_label(a))
        },
        SystemAudioMode::Off => seq!["—"@],
    }
}

/// The labels of the second control.
pub fn detail_labels(mode: SystemAudioMode, inv: &AudioInventory) -> (r: Vec<String>)
    ensures
        views(r@) == detail_labels_of(mode, inv@),
{
    let mut out: Vec<String> = Vec::new();
    match mode {
        SystemAudioMode::All => {
            out.push("Default output".to_owned());
            let mut i: usize = 0;
            while i < inv.sinks.len()
                invariant
                    i <= inv.sinks.len(),
                    out.len() == i + 1,
                    out@[0]@ == "Default output"@,
                    forall|k: int|
                        0 <= k < i ==> (#[trigger] out@[k + 1])@ == device_label(
                            inv.sinks@[k].description@,
                            inv.sinks@[k].is_default,
                        ),
                decreases inv.sinks.len() - i,
            {
                let s = &inv.sinks[i];
                out.push(label_device(s.description.as_str(), s.is_default));
                i = i + 1;
            }
            proof {
                let want = detail_labels_of(mode, inv@);
                assert(views(out@).len() == want.len());
                assert forall|k: int| 0 <= k < want.len() implies views(out@)[k] == want[k] by {
                    if k > 0 {
                        assert(out@[(k - 1) + 1]@ == want[k]);
                    }
                }
                assert(views(out@) =~= want);
            }
        },
        SystemAudioMode::App => {
            if inv.apps.len() == 0 {
                out.push("(no apps playing)".to_owned());
                assert(views(out@) =~= detail_labels_of(mode, inv@));
                return out;
            }
            let mut i: usize = 0;
            while i < inv.apps.len()
                invariant
                    i <= inv.apps.len(),
                    out.len() == i,
                    forall|k: int| 0 <= k < i ==> (#[trigger] out@[k])@ == app_label(inv.apps@[k]@),
                decreases inv.apps.len() - i,
            {
                let a = &inv.apps[i];
                let label = match &a.media_name {
                    Some(m) => concat3(a.name.as_str(), " — ", m.as_str()),
                    None => a.name.clone(),
                };
                out.push(label);
                i = i + 1;
            }
            assert(views(out@) =~= detail_labels_of(mode, inv@));
        },
        SystemAudioMode::Off => {
            out.push("—".to_owned());
            assert(views(out@) =~= detail_labels_of(mode, inv@));
        },
    }
    out
}

/// The selection of the second control: the plan's sink or application while it
/// is there, else the first entry.
pub open spec fn detail_selected(
    mode: SystemAudioMode,
    inv: InventoryView,
    plan: PlanView,
) -> int {
    match mode {
        SystemAudioMode::All => {
            let at = index_where(inv.sinks, |s: SinkView| Some(s.name) == plan.sink);
            if at < inv.sinks.len() {
                at + 1
            } else {
                0
            }
        },
        SystemAudioMode::App => {
            let at = index_where(
                inv.apps,
                |a: AppView| plan.app is Some && same_ignoring_case(a.name, plan.app->0),
            );
            if at < inv.apps.len() {
                at
            } else {
                0
            }
        },
        SystemAudioMode::Off => 0,
    }
}

/// The selection of the second control.
pub fn detail_selection(mode: SystemAudioMode, inv: &AudioInventory, plan: &AudioPlan) -> (r: usize)
    ensures
        r == detail_selected(mode, inv@, plan@),
{
    match mode {
        SystemAudioMode::All => {
            let ghost all = inv@.sinks;
            let ghost p = |s: SinkView| Some(s.name) == plan@.sink;
            let mut i: usize = 0;
            while i < inv.sinks.len()
                invariant
                    i <= inv.sinks.len(),
                    all == inv@.sinks,
                    mode == SystemAudioMode::All,
                    p == (|s: SinkView| Some(s.name) == plan@.sink),
                    forall|k: int| 0 <= k < i ==> !p(#[trigger] all[k]),
                decreases inv.sinks.len() - i,
            {
                assert(all[i as int] == inv.sinks@[i as int]@);
                let same = match &plan.sink {
                    Some(want) => str_eq(inv.sinks[i].name.as_str(), want.as_str()),
                    None => false,
                };
                if same {
                    proof {
                        index_where_is(all, p, i as int);
                    }
                    return i + 1;
                }
                i = i + 1;
            }
            proof {
                index_where_is(all, p, all.len() as int);
            }
            0
        },
        SystemAudioMode::App => {
            let ghost all = inv@.apps;
            let ghost p = |a: AppView| plan@.app is Some && same_ignoring_case(a.name, plan@.app->0);
            let mut i: usize = 0;
            while i < inv.apps.len()
                invariant
                    i <= inv.apps.len(),
                    all == inv@.apps,
                    mode == SystemAudioMode::App,
                    p == (|a: AppView|
                        plan@.app is Some && same_ignoring_case(a.name, plan@.app->0)),
                    forall|k: int| 0 <= k < i ==> !p(#[trigger] all[k]),
                decreases inv.apps.len() - i,
            {
                assert(all[i as int] == inv.apps@[i as int]@);
                let same = match &plan.app {
                    Some(want) => eq_ignore_ascii_case(inv.apps[i].name.as_str(), want.as_str()),
                    None => false,
                };
                if same {
                    proof {
                        index_where_is(all, p, i as int);
                    }
                    return i;
                }
                i = i + 1;
            }
            proof {
                index_where_is(all, p, all.len() as int);
            }
            0
        },
        SystemAudioMode::Off => 0,
    }
}

/// The real inputs of an inventory.
pub open spec fn mics_of(inv: InventoryView) -> Seq<SourceView> {
    inv.sources.filter(is_mic())
}

/// The labels of the microphone control: the inputs behind the default one.
pub fn mic_labels(inv: &AudioInventory) -> (r: Vec<String>)
    ensures
        views(r@) == seq!["Default mic"@] + mics_of(inv@).map_values(
            |m: SourceView| device_label(m.description, m.is_default),
        ),
{
    let mics = inv.mics();
    let ghost all = mics@.map_values(|s: &AudioSourceInfo| s@);
    let mut out: Vec<String> = Vec::new();
    out.push("Default mic".to_owned());
    let mut i: usize = 0;
    while i < mics.len()
        invariant
            i <= mics.len(),
            all == mics@.map_values(|s: &AudioSourceInfo| s@),
            out.len() == i + 1,
            out@[0]@ == "Default mic"@,
            forall|k: int|
                0 <= k < i ==> (#[trigger] out@[k + 1])@ == device_label(
                    all[k].description,
                    all[k].is_default,
                ),
        decreases mics.len() - i,
    {
        let m = mics[i];
        assert(all[i as int] == m@);
        out.push(label_device(m.description.as_str(), m.is_default));
        i = i + 1;
    }
    proof {
        let want = seq!["Default mic"@] + all.map_values(
            |m: SourceView| device_label(m.description, m.is_default),
        );
        assert(views(out@).len() == want.len());
        assert forall|k: int| 0 <= k < want.len() implies views(out@)[k] == want[k] by {
            if k > 0 {
                assert(out@[(k - 1) + 1]@ == want[k]);
            }
        }
        assert(views(out@) =~= want);
    }
    out
}

/// The selection of the microphone control: the plan's input while it is there.
pub open spec fn mic_selected(inv: InventoryView, plan: PlanView) -> int {
    let at = index_where(mics_of(inv), |m: SourceView| Some(m.name) == plan.mic_device);
    if at < mics_of(inv).len() {
        at + 1
    } else {
        0
    }
}

/// The selection of the microphone control.
pub fn mic_selection(inv: &AudioInventory, plan: &AudioPlan) -> (r: usize)
    ensures
        r == mic_selected(inv@, plan@),
{
    let mics = inv.mics();
    let ghost all = mics@.map_values(|s: &AudioSourceInfo| s@);
    let ghost p = |m: SourceView| Some(m.name) == plan@.mic_device;
    let mut i: usize = 0;
    while i < mics.len()
        invariant
            i <= mics.len(),
            all == mics@.map_values(|s: &AudioSourceInfo| s@),
            all == mics_of(inv@),
            p == (|m: SourceView| Some(m.name) == plan@.mic_device),
            forall|k: int| 0 <= k < i ==> !p(#[trigger] all[k]),
        decreases mics.len() - i,
    {
        let m = mics[i];
        assert(all[i as int] == m@);
        let same = match &plan.mic_device {
            Some(want) => str_eq(m.name.as_str(), want.as_str()),
            None => false,
        };
        if same {
            proof {
                index_where_is(all, p, i as int);
            }
            return i + 1;
        }
        i = i + 1;
    }
    proof {
        index_where_is(all, p, all.len() as int);
    }
    0
}

/// The plan that a selection makes: the first entry of a device control is the
/// default device.
pub open spec fn selected_plan(
    mode: SystemAudioMode,
    detail: int,
    mic: bool,
    mic_index: int,
    inv: InventoryView,
) -> PlanView {
    PlanView {
        system: mode,
        sink: if mode == SystemAudioMode::All && 1 <= detail <= inv.sinks.len() {
            Some(inv.sinks[detail - 1].name)
        } else {
            None
        },
        app: if mode == SystemAudioMode::App && 0 <= detail < inv.apps.len() {
            Some(inv.apps[detail].name)
        } else {
            None
        },
        mic,
        mic_device: if mic && 1 <= mic_index <= mics_of(inv).len() {
            Some(mics_of(inv)[mic_index - 1].name)
        } else {
            None
        },
    }.normal()
}

/// The plan that a selection makes.
pub fn plan_from_selection(
    mode: SystemAudioMode,
    detail: usize,
    mic: bool,
    mic_index: usize,
    inv: &AudioInventory,
) -> (r: AudioPlan)
    ensures
        r@ == selected_plan(mode, detail as int, mic, mic_index as int, inv@),
{
    let mut sink: Option<String> = None;
    let mut app: Option<String> = None;
    match mode {
        SystemAudioMode::All => {
            if detail >= 1 && detail <= inv.sinks.len() {
                sink = Some(inv.sinks[detail - 1].name.clone());
            }
        },
        SystemAudioMode::App => {
            if detail < inv.apps.len() {
                app = Some(inv.apps[detail].name.clone());
            }
        },
        SystemAudioMode::Off => {},
    }
    let mics = inv.mics();
    let ghost all = mics@.map_values(|s: &AudioSourceInfo| s@);
    assert(all.len() == mics.len());
    let mut mic_device: Option<String> = None;
    if mic && mic_index >= 1 && mic_index <= mics.len() {
        assert(all[mic_index - 1] == mics@[mic_index - 1]@);
        mic_device = Some(mics[mic_index - 1].name.clone());
    }
    AudioPlan { system: mode, sink, app, mic, mic_device }.normalized()
}

} // verus!
