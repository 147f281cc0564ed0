//! Choosing a monitor and a frame rate: what the pickers offer and what they
//! start with.

use vstd::prelude::*;
use vstd::string::*;

use crate::audio::{clean, cleaned};
use crate::config::{Config, ConfigView};
use crate::output::resolved_fps;
use crate::outputs::{decimal_parts, output_views, rounded_u32, whole_rate, OutputInfo, OutputView};
use crate::seqs::{index_where, index_where_is, index_where_props};
use crate::text::{
    borrow_opt, comes_before, concat2, decimal, decimal_int, i64_to_string, is_before, opt_str_view,
    opt_view, order_is_total, order_is_transitive, str_eq, u64_to_string,
};

verus! {

// ---------------------------------------------------------------------------
// Monitors
// ---------------------------------------------------------------------------

/// The label of a monitor: its name, and its size where that is known.
pub open spec fn label_of(o: OutputView) -> Seq<char> {
    if o.width is Some && o.height is Some && o.width->0 > 0 && o.height->0 > 0 {
        o.name + " · "@ + decimal_int(o.width->0 as int) + "×"@ + decimal_int(o.height->0 as int)
    } else {
        o.name
    }
}

/// The label of a monitor.
pub fn monitor_combo_label(o: &OutputInfo) -> (r: String)
    ensures
        r@ == label_of(o@),
{
    match (o.width, o.height) {
        (Some(w), Some(h)) => {
            if w > 0 && h > 0 {
                let mut s = concat2(o.name.as_str(), " · ");
                s.append(i64_to_string(w as i64).as_str());
                s.append("×");
                s.append(i64_to_string(h as i64).as_str());
                return s;
            }
        },
        _ => {},
    }
    o.name.clone()
}

/// A known, positive length, or zero.
pub open spec fn extent(side: Option<i32>) -> int {
    match side {
        Some(n) => if n > 0 {
            n as int
        } else {
            0
        },
        None => 0,
    }
}

/// The pixels of a monitor; zero where its size is not known.
pub open spec fn area_of(o: OutputView) -> int {
    extent(o.width) * extent(o.height)
}

/// A larger monitor is preferred; of two equal ones, the one whose name comes
/// first.
pub open spec fn is_preferred(a: OutputView, b: OutputView) -> bool {
    area_of(a) > area_of(b) || (area_of(a) == area_of(b) && comes_before(a.name, b.name))
}

/// The monitor `i` is the one to start with: no other is preferred, and it is
/// preferred to all before it.
pub open spec fn is_default_monitor(inventory: Seq<OutputView>, i: int) -> bool {
    if inventory.len() == 0 {
        i == 0
    } else {
        &&& 0 <= i < inventory.len()
        &&& forall|j: int|
            0 <= j < inventory.len() ==> !is_preferred(#[trigger] inventory[j], inventory[i])
        &&& forall|j: int| 0 <= j < i ==> is_preferred(inventory[i], #[trigger] inventory[j])
    }
}

/// There is one monitor to start with.
pub proof fn default_monitor_is_unique(inventory: Seq<OutputView>, i: int, k: int)
    requires
        is_default_monitor(inventory, i),
        is_default_monitor(inventory, k),
    ensures
        i == k,
{
    if inventory.len() > 0 {
        if i < k {
            assert(is_preferred(inventory[k], inventory[i]));
        }
        if k < i {
            assert(is_preferred(inventory[i], inventory[k]));
        }
    }
}

fn known_extent(side: Option<i32>) -> (r: i64)
    ensures
        r == extent(side),
        0 <= r <= i32::MAX,
{
    match side {
        Some(n) => if n > 0 {
            n as i64
        } else {
            0
        },
        None => 0,
    }
}

fn area(o: &OutputInfo) -> (r: i64)
    ensures
        r == area_of(o@),
{
    let w: i64 = known_extent(o.width);
    let h: i64 = known_extent(o.height);
    assert(0 <= w * h <= 0x7fff_ffff * 0x7fff_ffff) by (nonlinear_arith)
        requires
            0 <= w <= 0x7fff_ffff,
            0 <= h <= 0x7fff_ffff,
    ;
    w * h
}

fn prefers(a: &OutputInfo, b: &OutputInfo) -> (r: bool)
    ensures
        r == is_preferred(a@, b@),
{
    let x: i64 = area(a);
    let y: i64 = area(b);
    x > y || (x == y && is_before(a.name.as_str(), b.name.as_str()))
}

proof fn lemma_preferred(a: OutputView, b: OutputView, c: OutputView)
    requires
        is_preferred(a, b),
        !is_preferred(c, b),
    ensures
        is_preferred(a, c),
        !is_preferred(c, a),
{
    order_is_total(b.name, c.name);
    order_is_total(a.name, c.name);
    order_is_total(a.name, b.name);
    if area_of(a) == area_of(b) && area_of(b) == area_of(c) {
        if comes_before(b.name, c.name) {
            order_is_transitive(a.name, b.name, c.name);
        }
    }
}

/// The monitor to start with: the largest, by name where several are.
pub fn default_monitor_index(inventory: &Vec<OutputInfo>) -> (r: usize)
    ensures
        is_default_monitor(output_views(inventory@), r as int),
{
    let ghost all = output_views(inventory@);
    if inventory.len() == 0 {
        return 0;
    }
    let mut best: usize = 0;
    let mut i: usize = 1;
    proof {
        order_is_total(all[0].name, all[0].name);
    }
    while i < inventory.len()
        invariant
            all == output_views(inventory@),
            best < i <= inventory.len(),
            forall|j: int| 0 <= j < i ==> !is_preferred(#[trigger] all[j], all[best as int]),
            forall|j: int| 0 <= j < best ==> is_preferred(all[best as int], #[trigger] all[j]),
        decreases inventory.len() - i,
    {
        assert(all[i as int] == inventory@[i as int]@);
        assert(all[best as int] == inventory@[best as int]@);
        if prefers(&inventory[i], &inventory[best]) {
            proof {
                order_is_total(all[i as int].name, all[i as int].name);
                assert forall|j: int| 0 <= j < i implies is_preferred(
                    all[i as int],
                    #[trigger] all[j],
                ) && !is_preferred(all[j], all[i as int]) by {
                    lemma_preferred(all[i as int], all[best as int], all[j]);
                }
            }
            best = i;
        }
        i = i + 1;
    }
    best
}

/// The monitor that is selected at first: the pinned one while it is there.
pub open spec fn is_selected_monitor(
    inventory: Seq<OutputView>,
    pin: Option<Seq<char>>,
    i: int,
) -> bool {
    match cleaned(pin) {
        Some(name) => {
            let at = index_where(inventory, |o: OutputView| o.name == name);
            if at < inventory.len() {
                i == at
            } else {
                is_default_monitor(inventory, i)
            }
        },
        None => is_default_monitor(inventory, i),
    }
}

/// The monitor that is selected at first.
pub fn select_monitor_index(inventory: &Vec<OutputInfo>, config_pin: Option<&str>) -> (r: usize)
    ensures
        is_selected_monitor(output_views(inventory@), opt_str_view(config_pin), r as int),
{
    let ghost all = output_views(inventory@);
    if let Some(pin) = clean(config_pin) {
        let ghost p = |o: OutputView| o.name == pin@;
        let mut i: usize = 0;
        while i < inventory.len()
            invariant
                i <= inventory.len(),
                all == output_views(inventory@),
                p == (|o: OutputView| o.name == pin@),
                cleaned(opt_str_view(config_pin)) == Some(pin@),
                forall|k: int| 0 <= k < i ==> !p(#[trigger] all[k]),
            decreases inventory.len() - i,
        {
            assert(all[i as int] == inventory@[i as int]@);
            if str_eq(inventory[i].name.as_str(), pin.as_str()) {
                proof {
                    index_where_is(all, p, i as int);
                }
                return i;
            }
            i = i + 1;
        }
        proof {
            index_where_is(all, p, all.len() as int);
        }
    }
    default_monitor_index(inventory)
}

// ---------------------------------------------------------------------------
// Frame rates
// ---------------------------------------------------------------------------

/// The whole frame rate of a monitor, where its refresh rate is known.
pub open spec fn native_rate(refresh: Option<Seq<char>>) -> Option<u32> {
    match refresh {
        Some(t) => rounded_u32(decimal_parts(t)),
        None => None,
    }
}

/// The whole frame rate of a monitor with the given refresh rate, a decimal
/// text.
pub fn native_fps_hz(refresh: Option<&str>) -> (r: Option<u32>)
    ensures
        r == native_rate(opt_str_view(refresh)),
{
    match refresh {
        Some(t) => whole_rate(t),
        None => None,
    }
}

/// An entry of the rate picker; no rate means automatic.
#[derive(Debug, PartialEq, Eq)]
pub struct FpsEntry {
    pub label: String,
    pub fps: Option<u32>,
    pub is_native: bool,
}

/// What an [`FpsEntry`] says.
#[verifier::ext_equal]
pub struct FpsView {
    pub label: Seq<char>,
    pub fps: Option<u32>,
    pub is_native: bool,
}

impl View for FpsEntry {
    type V = FpsView;

    open spec fn view(&self) -> FpsView {
        FpsView { label: self.label@, fps: self.fps, is_native: self.is_native }
    }
}

/// What the entries of the rate picker say.
pub open spec fn fps_views(v: Seq<FpsEntry>) -> Seq<FpsView> {
    v.map_values(|e: FpsEntry| e@)
}

/// The entry for the automatic rate.
pub open spec fn auto_entry() -> FpsView {
    FpsView { label: "Auto"@, fps: None, is_native: false }
}

/// The entry for the monitor's own rate.
pub open spec fn native_entry(n: u32) -> FpsView {
    FpsView { label: decimal(n as nat) + " (native)"@, fps: Some(n), is_native: true }
}

/// The entry for another rate.
pub open spec fn rate_entry(n: u32) -> FpsView {
    FpsView { label: decimal(n as nat), fps: Some(n), is_native: false }
}

/// The rate `n` as an entry, unless it is there already.
pub open spec fn unless_offered(n: u32, offered: bool) -> Seq<FpsView> {
    if offered {
        Seq::empty()
    } else {
        seq![rate_entry(n)]
    }
}

/// The entries of the rate picker: automatic, the monitor's own rate, an extra
/// one, 60 and 30, each rate once.
pub open spec fn offered_rates(native: Option<u32>, extra: Option<u32>) -> Seq<FpsView> {
    seq![auto_entry()] + (match native {
        Some(n) => seq![native_entry(n)],
        None => Seq::empty(),
    }) + (match extra {
        Some(n) => unless_offered(n, n == 0 || native == Some(n)),
        None => Seq::empty(),
    }) + unless_offered(60, native == Some(60u32) || extra == Some(60u32)) + unless_offered(
        30,
        native == Some(30u32) || extra == Some(30u32),
    )
}

/// No rate is offered twice.
pub proof fn rates_are_distinct(native: Option<u32>, extra: Option<u32>, i: int, k: int)
    requires
        0 <= i < k < offered_rates(native, extra).len(),
    ensures
        offered_rates(native, extra)[i].fps != offered_rates(native, extra)[k].fps,
{
}

/// The rate that was asked for is offered.
pub proof fn extra_rate_is_offered(native: Option<u32>, extra: u32) -> (at: int)
    requires
        extra > 0,
    ensures
        0 <= at < offered_rates(native, Some(extra)).len(),
        offered_rates(native, Some(extra))[at].fps == Some(extra),
{
    match native {
        Some(n) => if n == extra {
            1
        } else {
            2
        },
        None => 1,
    }
}

fn push_entry(out: &mut Vec<FpsEntry>, entry: FpsEntry)
    ensures
        fps_views(final(out)@) == fps_views(old(out)@).push(entry@),
{
    out.push(entry);
    assert(fps_views(out@) =~= fps_views(old(out)@).push(entry@));
}

fn plain_rate(n: u32) -> (r: FpsEntry)
    ensures
        r@ == rate_entry(n),
{
    FpsEntry { label: u64_to_string(n as u64), fps: Some(n), is_native: false }
}

/// The entries of the rate picker.
pub fn build_fps_entries(native: Option<u32>, extra: Option<u32>) -> (r: Vec<FpsEntry>)
    ensures
        fps_views(r@) == offered_rates(native, extra),
{
    let mut out: Vec<FpsEntry> = Vec::new();
    push_entry(&mut out, FpsEntry { label: "Auto".to_owned(), fps: None, is_native: false });
    if let Some(n) = native {
        let n: u32 = n;
        push_entry(
            &mut out,
            FpsEntry {
                label: concat2(u64_to_string(n as u64).as_str(), " (native)"),
                fps: Some(n),
                is_native: true,
            },
        );
    }
    if let Some(n) = extra {
        let n: u32 = n;
        if n > 0 && native != Some(n) {
            push_entry(&mut out, plain_rate(n));
        }
    }
    if native != Some(60u32) && extra != Some(60u32) {
        push_entry(&mut out, plain_rate(60));
    }
    if native != Some(30u32) && extra != Some(30u32) {
        push_entry(&mut out, plain_rate(30));
    }
    assert(fps_views(out@) =~= offered_rates(native, extra));
    out
}

/// The entry that is selected: the preferred rate while it is offered; else the
/// monitor's own, if that is wanted; else automatic.
pub open spec fn selected_rate(
    entries: Seq<FpsView>,
    prefer: Option<u32>,
    native_if_unset: bool,
) -> int {
    let wanted = index_where(entries, |e: FpsView| prefer is Some && e.fps == prefer);
    let native = index_where(entries, |e: FpsView| native_if_unset && e.is_native);
    let auto = index_where(entries, |e: FpsView| e.fps is None);
    if wanted < entries.len() {
        wanted
    } else if native < entries.len() {
        native
    } else if auto < entries.len() {
        auto
    } else {
        0
    }
}

/// What is selected among the entries that begin with automatic.
proof fn lemma_selected_rate(entries: Seq<FpsView>, prefer: Option<u32>, native_if_unset: bool)
    requires
        entries.len() > 0,
        entries[0].fps is None,
    ensures
        0 <= selected_rate(entries, prefer, native_if_unset) < entries.len(),
        ({
            let chosen = entries[selected_rate(entries, prefer, native_if_unset)];
            let is_wanted = prefer is Some && exists|i: int|
                0 <= i < entries.len() && (#[trigger] entries[i]).fps == prefer;
            let has_native = native_if_unset && exists|i: int|
                0 <= i < entries.len() && (#[trigger] entries[i]).is_native;
            if is_wanted {
                chosen.fps == prefer
            } else if has_native {
                chosen.is_native
            } else {
                chosen.fps is None
            }
        }),
{
    index_where_props(entries, |e: FpsView| prefer is Some && e.fps == prefer);
    index_where_props(entries, |e: FpsView| native_if_unset && e.is_native);
    index_where_props(entries, |e: FpsView| e.fps is None);
}

/// The entry that is selected.
pub fn select_fps_index(
    entries: &Vec<FpsEntry>,
    prefer: Option<u32>,
    prefer_native_if_unset: bool,
) -> (r: usize)
    ensures
        r == selected_rate(fps_views(entries@), prefer, prefer_native_if_unset),
{
    let ghost all = fps_views(entries@);
    let ghost pw = |e: FpsView| prefer is Some && e.fps == prefer;
    let ghost pn = |e: FpsView| prefer_native_if_unset && e.is_native;
    let ghost pa = |e: FpsView| e.fps is None;
    let n: usize = entries.len();
    let mut wanted: usize = n;
    let mut native: usize = n;
    let mut auto: usize = n;
    let mut i: usize = n;
    while i > 0
        invariant
            n == entries.len(),
            all == fps_views(entries@),
            pw == (|e: FpsView| prefer is Some && e.fps == prefer),
            pn == (|e: FpsView| prefer_native_if_unset && e.is_native),
            pa == (|e: FpsView| e.fps is None),
            i <= n,
            wanted <= n,
            native <= n,
            auto <= n,
            forall|k: int| i <= k < wanted ==> !pw(#[trigger] all[k]),
            wanted < n ==> i <= wanted && pw(all[wanted as int]),
            forall|k: int| i <= k < native ==> !pn(#[trigger] all[k]),
            native < n ==> i <= native && pn(all[native as int]),
            forall|k: int| i <= k < auto ==> !pa(#[trigger] all[k]),
            auto < n ==> i <= auto && pa(all[auto as int]),
        decreases i,
    {
        i = i - 1;
        assert(all[i as int] == entries@[i as int]@);
        let e = &entries[i];
        if prefer.is_some() && e.fps == prefer {
            wanted = i;
        }
        if prefer_native_if_unset && e.is_native {
            native = i;
        }
        if e.fps.is_none() {
            auto = i;
        }
    }
    proof {
        index_where_is(all, pw, wanted as int);
        index_where_is(all, pn, native as int);
        index_where_is(all, pa, auto as int);
    }
    if wanted < n {
        wanted
    } else if native < n {
        native
    } else if auto < n {
        auto
    } else {
        0
    }
}

/// A selected rate as a number: zero stands for automatic.
pub open spec fn rate_number(selected: Option<u32>) -> u32 {
    match selected {
        Some(n) => n,
        None => 0,
    }
}

/// The rate that a start asks for: zero stands for automatic, so that the
/// session's own setting has no say.
pub fn ipc_fps_for_start(selected: Option<u32>) -> (r: Option<u32>)
    ensures
        r == Some(rate_number(selected)),
{
    match selected {
        Some(n) => Some(n),
        None => Some(0),
    }
}

// ---------------------------------------------------------------------------
// The pickers
// ---------------------------------------------------------------------------

/// The monitor and the rate that are selected.
#[derive(Debug, PartialEq, Eq)]
pub struct PickerState {
    pub inventory: Vec<OutputInfo>,
    pub fps_entries: Vec<FpsEntry>,
    pub selected_monitor: usize,
    pub selected_fps: usize,
    /// The pickers are being rebuilt: what they report is no choice.
    pub suppress_notify: bool,
}

/// What a [`PickerState`] says.
#[verifier::ext_equal]
pub struct PickerView {
    pub inventory: Seq<OutputView>,
    pub rates: Seq<FpsView>,
    pub monitor: int,
    pub rate: int,
    pub suppressed: bool,
}

impl View for PickerState {
    type V = PickerView;

    open spec fn view(&self) -> PickerView {
        PickerView {
            inventory: output_views(self.inventory@),
            rates: fps_views(self.fps_entries@),
            monitor: self.selected_monitor as int,
            rate: self.selected_fps as int,
            suppressed: self.suppress_notify,
        }
    }
}

impl PickerView {
    /// The rate of the selected monitor.
    pub open spec fn native(self) -> Option<u32> {
        if 0 <= self.monitor < self.inventory.len() {
            native_rate(self.inventory[self.monitor].refresh)
        } else {
            None
        }
    }

    /// The name of the selected monitor.
    pub open spec fn output_name(self) -> Option<Seq<char>> {
        if 0 <= self.monitor < self.inventory.len() {
            Some(self.inventory[self.monitor].name)
        } else {
            None
        }
    }

    /// The selected rate; none is automatic.
    pub open spec fn fps(self) -> Option<u32> {
        if 0 <= self.rate < self.rates.len() {
            self.rates[self.rate].fps
        } else {
            None
        }
    }

    /// The automatic rate is selected.
    pub open spec fn is_auto(self) -> bool {
        0 <= self.rate < self.rates.len() && self.rates[self.rate].fps is None
    }

    /// The pickers with the rates for the selected monitor.
    pub open spec fn rebuilt(self, prefer: Option<u32>, keep_auto: bool) -> PickerView {
        let rates = offered_rates(self.native(), prefer);
        PickerView {
            rates,
            rate: if keep_auto {
                selected_rate(rates, None, false)
            } else {
                selected_rate(rates, prefer, true)
            },
            ..self
        }
    }
}

/// What is picked is recorded: a start from the pickers takes their rate,
/// automatic too, whatever rate the session is configured with.
pub proof fn picked_rate_overrides_settings(selected: Option<u32>, configured: Option<u32>)
    ensures
        resolved_fps(Some(rate_number(selected)), configured) == resolved_fps(selected, None),
{
}

/// The rate that a configuration asks to be selected; zero asks for automatic.
pub open spec fn configured_rate(c: ConfigView) -> Option<u32> {
    match c.one_fps {
        Some(n) => if n > 0 {
            Some(n)
        } else {
            None
        },
        None => None,
    }
}

/// The pickers as they are opened for a configuration, with the given monitor
/// selected.
pub open spec fn opened_pickers(
    inventory: Seq<OutputView>,
    c: ConfigView,
    monitor: int,
) -> PickerView {
    (PickerView { inventory, rates: Seq::empty(), monitor, rate: 0, suppressed: false }).rebuilt(
        configured_rate(c),
        c.one_fps == Some(0u32),
    )
}

impl PickerState {
    /// The pickers for the given monitors, as the configuration wants them: its
    /// monitor while it is there, its rate, automatic where the rate is zero, the
    /// monitor's own where none is set.
    pub fn from_inventory_and_config(inventory: Vec<OutputInfo>, cfg: &Config) -> (r: Self)
        ensures
            is_selected_monitor(
                output_views(inventory@),
                opt_view(cfg.fullscreen_output),
                r@.monitor,
            ),
            r@ == opened_pickers(output_views(inventory@), cfg@, r@.monitor),
    {
        let selected_monitor: usize = select_monitor_index(
            &inventory,
            borrow_opt(&cfg.fullscreen_output),
        );
        let mut state = PickerState {
            inventory,
            fps_entries: Vec::new(),
            selected_monitor,
            selected_fps: 0,
            suppress_notify: false,
        };
        assert(state@.rates =~= Seq::empty());
        let extra = match cfg.one_fps {
            Some(n) => if n > 0 {
                Some(n)
            } else {
                None
            },
            None => None,
        };
        state.rebuild_fps_entries(extra, cfg.one_fps == Some(0u32));
        state
    }

    /// The name of the selected monitor.
    pub fn selected_output_name(&self) -> (r: Option<&str>)
        ensures
            opt_str_view(r) == self@.output_name(),
    {
        if self.selected_monitor < self.inventory.len() {
            Some(self.inventory[self.selected_monitor].name.as_str())
        } else {
            None
        }
    }

    /// The selected rate; none is automatic.
    pub fn selected_fps_value(&self) -> (r: Option<u32>)
        ensures
            r == self@.fps(),
    {
        if self.selected_fps < self.fps_entries.len() {
            self.fps_entries[self.selected_fps].fps
        } else {
            None
        }
    }

    /// Offer the rates for the selected monitor, with the preferred one among
    /// them, and select automatic, or the preferred rate, or the monitor's own.
    pub fn rebuild_fps_entries(&mut self, prefer: Option<u32>, keep_auto: bool)
        ensures
            final(self)@ == old(self)@.rebuilt(prefer, keep_auto),
    {
        let native = if self.selected_monitor < self.inventory.len() {
            native_fps_hz(borrow_opt(&self.inventory[self.selected_monitor].refresh))
        } else {
            None
        };
        self.fps_entries = build_fps_entries(native, prefer);
        self.selected_fps = if keep_auto {
            select_fps_index(&self.fps_entries, None, false)
        } else {
            select_fps_index(&self.fps_entries, prefer, true)
        };
    }

    /// The monitor picker reports entry `index`. Says whether that is a choice;
    /// the rates are then those for the new monitor, with automatic kept, or the
    /// rate that was selected.
    pub fn monitor_picked(&mut self, index: usize) -> (r: bool)
        ensures
            r == (!old(self)@.suppressed && index < old(self)@.inventory.len()
                && old(self)@.monitor != index),
            final(self)@ == (if r {
                PickerView { monitor: index as int, ..old(self)@ }.rebuilt(
                    old(self)@.fps(),
                    old(self)@.is_auto(),
                )
            } else {
                old(self)@
            }),
    {
        if self.suppress_notify || index >= self.inventory.len() || self.selected_monitor == index {
            return false;
        }
        self.selected_monitor = index;
        let keep_auto = self.selected_fps < self.fps_entries.len()
            && self.fps_entries[self.selected_fps].fps.is_none();
        let prev = self.selected_fps_value();
        self.rebuild_fps_entries(prev, keep_auto);
        true
    }

    /// The rate picker reports entry `index`. Says whether that is a choice.
    pub fn fps_picked(&mut self, index: usize) -> (r: bool)
        ensures
            r == (!old(self)@.suppressed && index < old(self)@.rates.len() && old(self)@.rate
                != index),
            final(self)@ == (if r {
                PickerView { rate: index as int, ..old(self)@ }
            } else {
                old(self)@
            }),
    {
        if self.suppress_notify || index >= self.fps_entries.len() || self.selected_fps == index {
            return false;
        }
        self.selected_fps = index;
        true
    }
}

/// Rebuilding keeps the choice: automatic stays automatic, and a rate stays
/// selected whatever the monitor.
pub proof fn rebuilding_keeps_the_choice(p: PickerView, prefer: Option<u32>, keep_auto: bool)
    requires
        prefer != Some(0u32),
    ensures
        keep_auto ==> p.rebuilt(prefer, keep_auto).is_auto(),
        !keep_auto && prefer is Some ==> p.rebuilt(prefer, keep_auto).fps() == prefer,
        !keep_auto && prefer is None ==> p.rebuilt(prefer, keep_auto).fps() == p.native(),
{
    let rates = offered_rates(p.native(), prefer);
    assert(rates[0] == auto_entry());
    if keep_auto {
        lemma_selected_rate(rates, None, false);
    } else {
        lemma_selected_rate(rates, prefer, true);
        match prefer {
            Some(n) => {
                let at = extra_rate_is_offered(p.native(), n);
                assert(rates[at].fps == prefer);
            },
            None => {
                if p.native() is Some {
                    assert(rates[1] == native_entry(p.native()->0));
                }
            },
        }
    }
}

/// A configuration with the choice: a monitor that is named replaces the pin, no
/// name leaves it alone, and automatic is remembered as zero.
pub open spec fn remembered(
    c: ConfigView,
    output: Option<Seq<char>>,
    fps: Option<u32>,
) -> ConfigView {
    ConfigView {
        fullscreen_output: match cleaned(output) {
            Some(name) => Some(name),
            None => c.fullscreen_output,
        },
        one_fps: Some(rate_number(fps)),
        ..c
    }
}

/// A choice that was remembered is there again when the pickers are opened: its
/// rate, automatic too, and its monitor while it is there.
pub proof fn remembered_choice_is_opened(
    c: ConfigView,
    inventory: Seq<OutputView>,
    output: Seq<char>,
    fps: Option<u32>,
    monitor: int,
)
    requires
        cleaned(Some(output)) == Some(output),
        is_selected_monitor(
            inventory,
            remembered(c, Some(output), fps).fullscreen_output,
            monitor,
        ),
    ensures
        opened_pickers(inventory, remembered(c, Some(output), fps), monitor).fps()
            == resolved_fps(fps, None),
        (exists|i: int| 0 <= i < inventory.len() && #[trigger] inventory[i].name == output)
            ==> opened_pickers(inventory, remembered(c, Some(output), fps), monitor).output_name()
            == Some(output),
{
    let after = remembered(c, Some(output), fps);
    let base = PickerView { inventory, rates: Seq::empty(), monitor, rate: 0, suppressed: false };
    rebuilding_keeps_the_choice(base, configured_rate(after), after.one_fps == Some(0u32));
    let named = |o: OutputView| o.name == output;
    index_where_props(inventory, named);
    if exists|i: int| 0 <= i < inventory.len() && #[trigger] inventory[i].name == output {
        let i = choose|i: int| 0 <= i < inventory.len() && #[trigger] inventory[i].name == output;
        assert(named(inventory[i]));
    }
}

/// Remember the choice in a configuration: a monitor that is named replaces the
/// pin, no name leaves it alone, and automatic is remembered as zero.
pub fn remember_pickers(cfg: &mut Config, output: Option<&str>, fps: Option<u32>)
    ensures
        final(cfg)@ == remembered(old(cfg)@, opt_str_view(output), fps),
{
    if let Some(name) = clean(output) {
        cfg.fullscreen_output = Some(name);
    }
    cfg.one_fps = ipc_fps_for_start(fps);
}

// ---------------------------------------------------------------------------
// Two monitors
// ---------------------------------------------------------------------------

/// Whether two monitors can be recorded together.
#[derive(Debug, Clone, Copy, PartialEq, Eq)]
pub enum BothEnablement {
    Enabled,
    /// They cannot, and what is shown why.
    Disabled { reason: &'static str },
}

impl BothEnablement {
    /// Whether two monitors can be recorded together.
    pub fn enabled(self) -> (r: bool)
        ensures
            r == (self is Enabled),
    {
        match self {
            BothEnablement::Enabled => true,
            BothEnablement::Disabled { .. } => false,
        }
    }

    /// The text that is shown.
    pub open spec fn shown(self) -> Seq<char> {
        match self {
            BothEnablement::Enabled =>
                "Both screens → one video (Hyprland layout, black voids). Exactly 2 monitors only for now."@,
            BothEnablement::Disabled { reason } => reason@,
        }
    }

    /// The text that is shown.
    pub fn tooltip(self) -> (r: &'static str)
        ensures
            r@ == self.shown(),
    {
        match self {
            BothEnablement::Enabled =>
                "Both screens → one video (Hyprland layout, black voids). Exactly 2 monitors only for now.",
            BothEnablement::Disabled { reason } => reason,
        }
    }
}

/// Two monitors can be recorded together when there are exactly two and ffmpeg
/// can be found.
pub fn both_enablement(inventory_len: usize, ffmpeg_present: bool) -> (r: BothEnablement)
    ensures
        (r is Enabled) == (inventory_len == 2 && ffmpeg_present),
        inventory_len < 2 ==> r.shown()
            == "2-monitor mode needs exactly two monitors (fewer detected)."@,
        inventory_len > 2 ==> r.shown()
            == "Only exactly two monitors supported for now (3+ not supported yet)."@,
        inventory_len == 2 && !ffmpeg_present ==> r.shown()
            == "2-monitor mode needs ffmpeg on PATH (post-stop stitch)."@,
{
    if inventory_len < 2 {
        BothEnablement::Disabled {
            reason: "2-monitor mode needs exactly two monitors (fewer detected).",
        }
    } else if inventory_len > 2 {
        BothEnablement::Disabled {
            reason: "Only exactly two monitors supported for now (3+ not supported yet).",
        }
    } else if !ffmpeg_present {
        BothEnablement::Disabled {
            reason: "2-monitor mode needs ffmpeg on PATH (post-stop stitch).",
        }
    } else {
        BothEnablement::Enabled
    }
}

} // verus!
