//! Laws of the window: what it shows, what its controls stand for, and what a click
//! asks of the session.

use vstd::prelude::*;
use vstd::string::*;

use crate::audio::{is_mic, AppView, InventoryView, PlanView, SinkView, SourceView, SystemAudioMode};
use crate::audio_laws::{ends_in, says_something};
use crate::config::ConfigView;
use crate::ipc::{IpcCommand, IpcStatusView, ResponseView};
use crate::output_laws::{has_part, lemma_joined_has, lemma_part_of_part, starts_in};
use crate::outputs::OutputView;
use crate::picker::{
    is_default_monitor, is_selected_monitor, label_of, native_rate, offered_rates, opened_pickers,
    remembered, selected_rate, FpsView, PickerView,
};
use crate::seqs::{index_where, index_where_is, index_where_props};
use crate::sound::{
    app_label, detail_labels_of, detail_selected, mic_selected, mics_of, mode_at, selected_plan,
};
use crate::text::{
    comes_before, decimal, decimal_int, digit_char, has_ignoring_case, joined, lemma_find_char, same_ignoring_case, split_of,
    trim_of, zero_padded,
};
use crate::view::{
    capture_line, chrome_of, clock_text, elapsed_of, message_line, op_line, start_cmd, warned_line,
    ErrorSource, Moment, MsgView, OpKind, ViewModel,
};
use crate::worker::{job_of, jobs_of, revival_msgs, CmdView, Revival};

verus! {

// ---------------------------------------------------------------------------
// The lines
// ---------------------------------------------------------------------------

proof fn lemma_two_digits(n: nat)
    requires
        n < 100,
    ensures
        zero_padded(decimal(n), 2) == seq![digit_char(n / 10), digit_char(n % 10)],
{
    if n < 10 {
        assert(decimal(n) == seq![digit_char(n)]);
        assert(digit_char(0) == '0');
        assert(zero_padded(decimal(n), 2) =~= seq!['0', digit_char(n)]);
    } else {
        assert(decimal(n / 10) == seq![digit_char(n / 10)]);
        assert(decimal(n) =~= seq![digit_char(n / 10), digit_char(n % 10)]);
    }
}

/// The timer counts minutes and seconds, each with two digits.
pub proof fn the_timer_counts_minutes_and_seconds(minutes: int, seconds: int, millis: int)
    requires
        0 <= minutes < 100,
        0 <= seconds < 60,
        0 <= millis < 1000,
    ensures
        clock_text((minutes * 60 + seconds) * 1000 + millis) == seq![
            digit_char((minutes / 10) as nat),
            digit_char((minutes % 10) as nat),
            ':',
            digit_char((seconds / 10) as nat),
            digit_char((seconds % 10) as nat),
        ],
{
    let ms = (minutes * 60 + seconds) * 1000 + millis;
    assert(ms / 1000 == minutes * 60 + seconds);
    assert(ms / 1000 / 60 == minutes);
    assert(ms / 1000 % 60 == seconds);
    lemma_two_digits(minutes as nat);
    lemma_two_digits(seconds as nat);
    reveal_strlit(":");
    assert(":"@ =~= seq![':']);
    assert(clock_text(ms) =~= seq![
        digit_char((minutes / 10) as nat),
        digit_char((minutes % 10) as nat),
        ':',
        digit_char((seconds / 10) as nat),
        digit_char((seconds % 10) as nat),
    ]);
}

/// The time that went by is that since the start, where the start is known, and
/// never below zero; else it is what the session says.
pub proof fn the_timer_starts_with_the_recording(s: IpcStatusView, now_ms: u64)
    ensures
        s.started_at_unix is Some && s.started_at_unix->0 * 1000 <= now_ms
            ==> s.started_at_unix->0 * 1000 + elapsed_of(s, now_ms) == now_ms,
        s.started_at_unix is Some && s.started_at_unix->0 * 1000 > now_ms ==> elapsed_of(s, now_ms)
            == 0,
        s.started_at_unix is None && s.elapsed_ms is Some ==> elapsed_of(s, now_ms)
            == s.elapsed_ms->0,
        s.started_at_unix is None && s.elapsed_ms is None ==> elapsed_of(s, now_ms) == 0,
{
}

proof fn lemma_split_two(a: Seq<char>, c: char, b: Seq<char>)
    requires
        forall|i: int| 0 <= i < a.len() ==> a[i] != c,
        forall|i: int| 0 <= i < b.len() ==> b[i] != c,
    ensures
        split_of(a + seq![c] + b, c) == seq![a, b],
{
    let s = a + seq![c] + b;
    assert forall|i: int| 0 <= i < a.len() implies s[i] != c by {
        assert(s[i] == a[i]);
    }
    lemma_find_char(s, c, a.len() as int);
    assert(s.subrange(0, a.len() as int) =~= a);
    assert(s.subrange(a.len() as int + 1, s.len() as int) =~= b);
    lemma_find_char(b, c, b.len() as int);
    assert(split_of(b, c) =~= seq![b]);
    assert(split_of(s, c) =~= seq![a, b]);
}

/// What is captured is named: one output by its name, two monitors by both.
pub proof fn what_is_captured_is_named(s: IpcStatusView, a: Seq<char>, b: Seq<char>)
    ensures
        s.capture_output is None ==> capture_line(s) is None,
        s.capture_output is Some && s.capture_mode != Some("both"@) ==> capture_line(s) == Some(
            "Output: "@ + s.capture_output->0,
        ),
        s.capture_output == Some(a + "+"@ + b) && s.capture_mode == Some("both"@) && !a.contains(
            '+',
        ) && !b.contains('+') ==> capture_line(s) == Some("2 monitors: "@ + (a + " + "@ + b)),
{
    reveal_strlit("+");
    assert("+"@ =~= seq!['+']);
    if !a.contains('+') && !b.contains('+') {
        lemma_split_two(a, '+', b);
        let parts = seq![a, b];
        assert(parts.drop_last() =~= seq![a]);
        assert(joined(seq![a], " + "@) == a);
        assert(joined(parts, " + "@) == a + " + "@ + b);
    }
}

/// A message that is given is shown; else a stop that is under way, and with two
/// monitors that they are composed; else what is captured while a recording starts
/// or runs.
pub proof fn the_line_says_what_goes_on(
    message: Option<Seq<char>>,
    s: IpcStatusView,
    stop_in_flight: bool,
    stopping_both: bool,
)
    ensures
        ({
            let line = message_line(message, s, stop_in_flight, stopping_both);
            let stopping = s.state == "Stopping"@ || stop_in_flight;
            let both = stopping_both || s.capture_mode == Some("both"@);
            &&& message is Some ==> line == message
            &&& message is None && stopping && both ==> line == Some("Stopping… Composing…"@)
            &&& message is None && stopping && !both ==> line == Some("Stopping…"@)
            &&& message is None && !stopping && (s.state == "Recording"@ || s.state == "Starting"@)
                ==> line == capture_line(s)
            &&& message is None && !stopping && s.state != "Recording"@ && s.state != "Starting"@
                ==> line is None
        }),
{
}

/// An answer is told: a failure by its message, else its code; a start by what is
/// captured; a stop by the file that was saved.
pub proof fn an_answer_is_told(kind: OpKind, resp: ResponseView)
    ensures
        !resp.ok && resp.message.len() > 0 ==> op_line(kind, resp) == resp.message,
        !resp.ok && resp.message.len() == 0 ==> has_part(op_line(kind, resp), resp.code),
        resp.ok && kind == OpKind::Start && resp.code != "slurp_cancel"@ && resp.status.state
            == "Recording"@ && resp.status.capture_output is Some ==> Some(op_line(kind, resp))
            == capture_line(resp.status),
        resp.ok && kind == OpKind::Start && resp.code == "slurp_cancel"@ ==> op_line(kind, resp)
            == "Region selection canceled"@,
        resp.ok && kind == OpKind::Start && resp.code != "slurp_cancel"@ && resp.status.state
            != "Recording"@ ==> op_line(kind, resp) == resp.message,
        resp.ok && kind == OpKind::Stop && resp.status.last_success_path is Some ==> ends_in(
            op_line(kind, resp),
            resp.status.last_success_path->0,
        ),
        resp.ok && kind == OpKind::Stop && resp.status.last_success_path is Some
            && resp.warnings.len() == 0 ==> op_line(kind, resp) == "Saved — path ready: "@
            + resp.status.last_success_path->0,
        resp.ok && kind == OpKind::Stop && resp.status.last_success_path is Some
            && resp.warnings.len() > 0 ==> op_line(kind, resp) == "Saved: "@
            + resp.status.last_success_path->0,
        resp.ok && kind == OpKind::Stop && resp.status.last_success_path is None
            && resp.message.len() > 0 ==> op_line(kind, resp) == resp.message,
        resp.ok && kind == OpKind::Start && resp.code != "slurp_cancel"@ && resp.status.state
            == "Recording"@ && resp.status.capture_output is None ==> {
            ||| op_line(kind, resp) == resp.message && has_ignoring_case(
                resp.message,
                "recording"@,
            )
            ||| op_line(kind, resp) == "Recording…"@ && !has_ignoring_case(
                resp.message,
                "recording"@,
            )
        },
{
    if !resp.ok && resp.message.len() == 0 {
        assert(op_line(kind, resp) == "Error ("@ + resp.code + ")"@);
    }
    if resp.ok && kind == OpKind::Stop && resp.status.last_success_path is Some {
        let p = resp.status.last_success_path->0;
        let line = op_line(kind, resp);
        assert(line.skip(line.len() - p.len()) =~= p);
    }
}

/// Warnings stand behind the line, each of them, and the line is kept.
pub proof fn warnings_stand_behind_the_line(line: Seq<char>, warnings: Seq<Seq<char>>)
    ensures
        warnings.len() == 0 ==> warned_line(line, warnings) == line,
        starts_in(warned_line(line, warnings), line),
        forall|k: int|
            0 <= k < warnings.len() ==> has_part(
                warned_line(line, warnings),
                #[trigger] warnings[k],
            ),
{
    let all = warned_line(line, warnings);
    let list = joined(warnings, "; "@);
    assert(all.take(line.len() as int) =~= line);
    if warnings.len() > 0 {
        if line.len() == 0 {
            assert(all =~= "warning: "@ + list + Seq::<char>::empty());
        } else {
            assert(all =~= (line + "  (warning: "@) + list + ")"@);
        }
        assert forall|k: int| 0 <= k < warnings.len() implies has_part(
            all,
            #[trigger] warnings[k],
        ) by {
            lemma_joined_has(warnings, "; "@, k);
            lemma_part_of_part(all, list, warnings[k]);
        }
    }
}

/// A status is shown: its state, the time while it records and no stop is asked for,
/// and the last file, which is the session's where it has one and else stays.
pub proof fn a_status_is_shown(
    v: ViewModel,
    s: IpcStatusView,
    message: Option<Seq<char>>,
    at: Moment,
)
    ensures
        ({
            let shown = v.shown(s, message, at);
            &&& shown.state_line == "State: "@ + s.state
            &&& s.state == "Recording"@ && !v.stop_in_flight ==> shown.timer == Some(
                clock_text(elapsed_of(s, at.wall_ms)),
            )
            &&& s.state == "Idle"@ ==> shown.timer == Some("00:00"@)
            &&& s.last_success_path is Some ==> shown.path_line == Some(
                "Last file: "@ + s.last_success_path->0,
            )
            &&& s.last_success_path is None && v.last_path is Some ==> shown.path_line == Some(
                "Last file: "@ + v.last_path->0,
            )
            &&& s.last_success_path is None && v.last_path is None ==> shown.path_line is None
            &&& message is Some ==> shown.message == message
            &&& shown.idle <==> s.state == "Idle"@ && !v.start_in_flight && !v.stop_in_flight
            &&& shown.revalidate ==> shown.idle
        }),
        v.after_status(s, at).last_status == Some(s),
        s.last_success_path is Some ==> v.after_status(s, at).last_path == s.last_success_path,
        s.last_success_path is None ==> v.after_status(s, at).last_path == v.last_path,
{
    reveal_strlit("Recording");
    reveal_strlit("Idle");
    assert("Recording"@.len() == 9 && "Idle"@.len() == 4);
}

/// While nothing goes on the monitors are looked at when that begins, when they were
/// never looked at, and then again after ten seconds each time; a look is remembered.
pub proof fn the_monitors_are_looked_at_again(v: ViewModel, s: IpcStatusView, at: Moment)
    requires
        s.state == "Idle"@,
        !v.start_in_flight,
        !v.stop_in_flight,
    ensures
        v.last_status is None || v.last_status->0.state != "Idle"@ ==> v.shown(
            s,
            None,
            at,
        ).revalidate,
        v.last_both_revalidate is None ==> v.shown(s, None, at).revalidate,
        v.last_status is Some && v.last_status->0.state == "Idle"@ && v.last_both_revalidate is Some
            ==> (v.shown(s, None, at).revalidate <==> at.steady_ms >= v.last_both_revalidate->0
            + 10_000),
        v.shown(s, None, at).revalidate ==> v.after_status(s, at).last_both_revalidate == Some(
            at.steady_ms,
        ),
        !v.shown(s, None, at).revalidate ==> v.after_status(s, at).last_both_revalidate
            == v.last_both_revalidate,
{
}

/// Every failure that counts is shown: the window is told it, and for a start or a
/// stop it comes to the front. A session that cannot be attached to closes it.
pub proof fn a_failure_is_shown(v: ViewModel, m: MsgView, at: Moment)
    ensures
        m is Error ==> v.effects(m, at).message == Some(m->Error_message),
        m is Error ==> (v.effects(m, at).present <==> m->source != ErrorSource::Status),
        m is Info ==> v.effects(m, at).message == Some(m->Info_0) && !v.effects(m, at).close,
        m is SubscribeFailed ==> v.effects(m, at).close && v.effects(m, at).message == Some(
            m->SubscribeFailed_0,
        ),
        v.effects(m, at).close ==> m is SubscribeFailed,
        m is OpDone && !v.is_late(m) ==> v.effects(m, at).present && v.effects(m, at).shown is Some
            && v.effects(m, at).shown->0.message == Some(
            warned_line(op_line(m->kind, m->resp), m->resp.warnings),
        ),
        m is Status ==> v.effects(m, at).shown is Some && v.effects(m, at).shown->0.state_line
            == "State: "@ + m->Status_0.state,
        m is Subscribed ==> v.effects(m, at).shown is Some && v.effects(m, at).shown->0.state_line
            == "State: "@ + m->Subscribed_0.state,
{
}

/// A failure of the session is told when the session is found idle again, and once.
pub proof fn a_failure_is_told_once(v: ViewModel, s: IpcStatusView, at: Moment)
    requires
        s.state == "Idle"@,
        s.last_error is Some,
    ensures
        v.state() != "Idle"@ ==> v.effects(MsgView::Status(s), at).shown->0.message == s.last_error,
        v.state() == "Idle"@ && !v.stop_in_flight ==> v.effects(
            MsgView::Status(s),
            at,
        ).shown->0.message is None,
        v.after_msg(MsgView::Status(s), at).state() == "Idle"@,
{
    reveal_strlit("Idle");
    reveal_strlit("Stopping");
    reveal_strlit("Recording");
    reveal_strlit("Starting");
    assert("Idle"@.len() == 4 && "Stopping"@.len() == 8 && "Recording"@.len() == 9
        && "Starting"@.len() == 8);
}

/// No control can be used while something goes on; while nothing does, each can be
/// used for which there is a use.
pub proof fn controls_wait_for_rest(
    idle: bool,
    one: bool,
    both_eligible: bool,
    system_mode: u32,
    mic_on: bool,
)
    ensures
        ({
            let c = chrome_of(idle, one, both_eligible, system_mode, mic_on);
            &&& !idle ==> !c.modes && !c.both && !c.pickers && !c.system_mode && !c.system_detail
                && !c.mic && !c.mic_device
            &&& idle ==> c.modes && c.system_mode && c.mic
            &&& idle ==> (c.both <==> both_eligible)
            &&& idle ==> (c.pickers <==> one)
            &&& idle ==> (c.mic_device <==> mic_on)
            &&& idle ==> (c.system_detail <==> mode_at(system_mode) != SystemAudioMode::Off)
        }),
{
}

// ---------------------------------------------------------------------------
// Starting
// ---------------------------------------------------------------------------

/// A start from the window asks for what is chosen there: a region, two monitors, or
/// the monitor and the rate of the pickers, zero being automatic; with the plan and
/// the number of the start.
pub proof fn a_click_starts_what_is_chosen(
    region: bool,
    both: bool,
    plan: PlanView,
    picker: PickerView,
    epoch: u64,
)
    ensures
        ({
            let job = job_of(start_cmd(region, both, plan, picker, epoch));
            &&& job is Some
            &&& job->0.epoch == epoch
            &&& job->0.request.audio_plan == Some(plan)
            &&& job->0.request.audio is None && job->0.request.gui is None
            &&& region ==> job->0.request.cmd == IpcCommand::StartRegion
            &&& !region && both ==> job->0.request.cmd == IpcCommand::StartBoth
            &&& region || both ==> job->0.request.output is None && job->0.request.fps is None
            &&& !region && !both ==> {
                &&& job->0.request.cmd == IpcCommand::StartFullscreen
                &&& 0 <= picker.monitor < picker.inventory.len() ==> job->0.request.output == Some(
                    picker.inventory[picker.monitor].name,
                )
                &&& 0 <= picker.rate < picker.rates.len() && picker.rates[picker.rate].fps is Some
                    ==> job->0.request.fps == picker.rates[picker.rate].fps
                &&& 0 <= picker.rate < picker.rates.len() && picker.rates[picker.rate].fps is None
                    ==> job->0.request.fps == Some(0u32)
            }
        }),
{
}

/// Only starts are jobs.
pub proof fn only_starts_are_jobs(c: CmdView)
    ensures
        job_of(c) is Some <==> c is StartRegion || c is StartFullscreen || c is StartBoth,
{
}

/// A session that was lost and found again is shown anew; one that cannot be started
/// is told with both reasons; one that cannot be attached to ends the window.
pub proof fn a_revival_is_told(lost: crate::client::ClientError, r: Revival)
    ensures
        r is Attached ==> revival_msgs(lost, r).len() == 2 && revival_msgs(lost, r)[0]
            == MsgView::Subscribed(r->Attached_0@) && revival_msgs(lost, r)[1] is Info,
        r is NotAttached ==> revival_msgs(lost, r).len() == 1 && revival_msgs(
            lost,
            r,
        )[0] is SubscribeFailed && ends_in(
            revival_msgs(lost, r)[0]->SubscribeFailed_0,
            r->NotAttached_0@,
        ),
        r is NotStarted ==> revival_msgs(lost, r).len() == 1 && revival_msgs(lost, r)[0] is Error
            && revival_msgs(lost, r)[0]->source == ErrorSource::Status && ends_in(
            revival_msgs(lost, r)[0]->Error_message,
            r->NotStarted_0@,
        ) && has_part(revival_msgs(lost, r)[0]->Error_message, lost.text()),
{
    match r {
        Revival::NotAttached(e) => {
            let m = "lost session and could not re-attach: "@ + e@;
            assert(m.skip(m.len() - e@.len()) =~= e@);
        },
        Revival::NotStarted(e) => {
            let m = "lost connection to session server ("@ + lost.text() + "); revive failed: "@
                + e@;
            assert(m.skip(m.len() - e@.len()) =~= e@);
            assert(m =~= "lost connection to session server ("@ + lost.text() + (
            "); revive failed: "@ + e@));
        },
        _ => {},
    }
}

// ---------------------------------------------------------------------------
// The pickers
// ---------------------------------------------------------------------------

/// The label of a monitor begins with its name and ends with its size, where that is
/// known.
pub proof fn a_monitor_is_labelled(o: OutputView)
    ensures
        starts_in(label_of(o), o.name),
        o.width is Some && o.height is Some && o.width->0 > 0 && o.height->0 > 0 ==> ends_in(
            label_of(o),
            decimal_int(o.width->0 as int) + "×"@ + decimal_int(o.height->0 as int),
        ),
        !(o.width is Some && o.height is Some && o.width->0 > 0 && o.height->0 > 0) ==> label_of(o)
            == o.name,
{
    let l = label_of(o);
    assert(l.take(o.name.len() as int) =~= o.name);
    if o.width is Some && o.height is Some && o.width->0 > 0 && o.height->0 > 0 {
        let size = decimal_int(o.width->0 as int) + "×"@ + decimal_int(o.height->0 as int);
        assert(l.skip(l.len() - size.len()) =~= size);
    }
}

/// The monitor selected at first is the one that the configuration names, the first
/// of that name.
pub proof fn the_pinned_monitor_is_selected(
    inventory: Seq<OutputView>,
    pin: Option<Seq<char>>,
    i: int,
    k: int,
)
    requires
        is_selected_monitor(inventory, pin, i),
        says_something(pin),
        0 <= k < inventory.len(),
        inventory[k].name == trim_of(pin->0),
        forall|j: int| 0 <= j < k ==> (#[trigger] inventory[j]).name != trim_of(pin->0),
    ensures
        i == k,
{
    let p = |o: OutputView| o.name == trim_of(pin->0);
    assert forall|j: int| 0 <= j < k implies !p(#[trigger] inventory[j]) by {
        assert(inventory[j].name != trim_of(pin->0));
    }
    index_where_is(inventory, p, k);
}

/// The pixels of a monitor; none where its size is not known.
pub open spec fn pixels(o: OutputView) -> int {
    if o.width is Some && o.height is Some && o.width->0 > 0 && o.height->0 > 0 {
        o.width->0 * o.height->0
    } else {
        0
    }
}

/// Where the configuration names none that is there, a largest monitor is selected, and
/// of equal ones the one whose name comes first.
pub proof fn a_largest_monitor_is_selected(
    inventory: Seq<OutputView>,
    pin: Option<Seq<char>>,
    i: int,
)
    requires
        is_selected_monitor(inventory, pin, i),
        inventory.len() > 0,
        !says_something(pin) || forall|j: int|
            0 <= j < inventory.len() ==> (#[trigger] inventory[j]).name != trim_of(pin->0),
    ensures
        0 <= i < inventory.len(),
        forall|j: int|
            0 <= j < inventory.len() ==> pixels(#[trigger] inventory[j]) <= pixels(inventory[i]),
        forall|j: int|
            0 <= j < inventory.len() && pixels(#[trigger] inventory[j]) == pixels(inventory[i])
                ==> !comes_before(inventory[j].name, inventory[i].name),
{
    if says_something(pin) {
        let p = |o: OutputView| o.name == trim_of(pin->0);
        assert forall|j: int| 0 <= j < inventory.len() implies !p(#[trigger] inventory[j]) by {
            assert(inventory[j].name != trim_of(pin->0));
        }
        index_where_is(inventory, p, inventory.len() as int);
    }
    assert(is_default_monitor(inventory, i));
    assert forall|j: int| 0 <= j < inventory.len() implies pixels(#[trigger] inventory[j])
        <= pixels(inventory[i]) && (pixels(inventory[j]) == pixels(inventory[i])
        ==> !comes_before(inventory[j].name, inventory[i].name)) by {
        lemma_pixels(inventory[j]);
        lemma_pixels(inventory[i]);
        assert(!crate::picker::is_preferred(inventory[j], inventory[i]));
    }
}

proof fn lemma_pixels(o: OutputView)
    ensures
        pixels(o) == crate::picker::area_of(o),
{
    let w = crate::picker::extent(o.width);
    let h = crate::picker::extent(o.height);
    assert(w * 0 == 0 && 0 * h == 0) by (nonlinear_arith);
}

/// The rate picker offers automatic first, the monitor's own rate, marked, where it
/// is known, the rate asked for, and sixty and thirty; each entry is labelled by its
/// rate.
pub proof fn the_rates_offered_are_labelled(native: Option<u32>, extra: Option<u32>)
    ensures
        ({
            let rates = offered_rates(native, extra);
            &&& rates.len() > 0 && rates[0].fps is None && rates[0].label == "Auto"@
            &&& native is Some ==> rates[1].fps == native && rates[1].is_native
            &&& native is Some ==> rates[1].label == decimal(native->0 as nat) + " (native)"@
            &&& forall|i: int|
                0 < i < rates.len() ==> {
                    &&& (#[trigger] rates[i]).fps is Some
                    &&& starts_in(rates[i].label, decimal(rates[i].fps->0 as nat))
                    &&& rates[i].is_native ==> rates[i].fps == native
                    &&& !rates[i].is_native ==> rates[i].label == decimal(
                        rates[i].fps->0 as nat,
                    )
                }
            &&& exists|i: int| 0 < i < rates.len() && (#[trigger] rates[i]).fps == Some(60u32)
            &&& exists|i: int| 0 < i < rates.len() && (#[trigger] rates[i]).fps == Some(30u32)
            &&& extra is Some && extra->0 > 0 ==> exists|i: int|
                0 < i < rates.len() && (#[trigger] rates[i]).fps == extra
        }),
{
    let rates = offered_rates(native, extra);
    let n = if native is Some {
        1int
    } else {
        0
    };
    let added = extra is Some && extra->0 != 0 && native != extra;
    let m = n + (if added {
        1int
    } else {
        0
    });
    let sixty = native != Some(60u32) && extra != Some(60u32);
    let k = m + (if sixty {
        1int
    } else {
        0
    });
    if native is Some {
        assert(rates[1] == crate::picker::native_entry(native->0));
        let label = rates[1].label;
        assert(label.take(decimal(native->0 as nat).len() as int) =~= decimal(native->0 as nat));
    }
    if added {
        assert(rates[1 + n] == crate::picker::rate_entry(extra->0));
    }
    if sixty {
        assert(rates[1 + m] == crate::picker::rate_entry(60));
    }
    if native != Some(30u32) && extra != Some(30u32) {
        assert(rates[1 + k] == crate::picker::rate_entry(30));
    }
    assert forall|i: int| 0 < i < rates.len() implies {
        &&& (#[trigger] rates[i]).fps is Some
        &&& starts_in(rates[i].label, decimal(rates[i].fps->0 as nat))
        &&& rates[i].is_native ==> rates[i].fps == native
        &&& !rates[i].is_native ==> rates[i].label == decimal(rates[i].fps->0 as nat)
    } by {
        if !rates[i].is_native {
            let label = rates[i].label;
            assert(label.take(label.len() as int) =~= label);
        }
    }
}

/// The rate selected is the one asked for while it is offered; else the monitor's own,
/// where that is wanted and offered; else automatic.
pub proof fn the_rate_asked_for_is_selected(
    rates: Seq<FpsView>,
    prefer: Option<u32>,
    native_if_unset: bool,
)
    requires
        rates.len() > 0,
        rates[0].fps is None,
    ensures
        ({
            let at = selected_rate(rates, prefer, native_if_unset);
            let offered = prefer is Some && exists|i: int|
                0 <= i < rates.len() && (#[trigger] rates[i]).fps == prefer;
            let own = native_if_unset && exists|i: int|
                0 <= i < rates.len() && (#[trigger] rates[i]).is_native;
            &&& 0 <= at < rates.len()
            &&& offered ==> rates[at].fps == prefer
            &&& !offered && own ==> rates[at].is_native
            &&& !offered && !own ==> rates[at].fps is None
        }),
{
    let wanted = |e: FpsView| prefer is Some && e.fps == prefer;
    let native = |e: FpsView| native_if_unset && e.is_native;
    let auto = |e: FpsView| e.fps is None;
    index_where_props(rates, wanted);
    index_where_props(rates, native);
    index_where_props(rates, auto);
    assert(auto(rates[0]));
    assert(index_where(rates, auto) == 0);
    if prefer is Some && exists|i: int| 0 <= i < rates.len() && (#[trigger] rates[i]).fps == prefer {
        let i = choose|i: int| 0 <= i < rates.len() && (#[trigger] rates[i]).fps == prefer;
        assert(wanted(rates[i]));
    }
    if index_where(rates, wanted) < rates.len() {
        assert(wanted(rates[index_where(rates, wanted)]));
    }
    if native_if_unset && exists|i: int| 0 <= i < rates.len() && (#[trigger] rates[i]).is_native {
        let i = choose|i: int| 0 <= i < rates.len() && (#[trigger] rates[i]).is_native;
        assert(native(rates[i]));
    }
    if index_where(rates, native) < rates.len() {
        assert(native(rates[index_where(rates, native)]));
    }
}

/// A choice that is remembered is stored under its settings, and no other setting is
/// touched.
pub proof fn a_choice_is_remembered(c: ConfigView, output: Option<Seq<char>>, fps: Option<u32>)
    ensures
        ({
            let after = remembered(c, output, fps);
            &&& says_something(output) ==> after.fullscreen_output == Some(trim_of(output->0))
            &&& !says_something(output) ==> after.fullscreen_output == c.fullscreen_output
            &&& fps is Some ==> after.one_fps == fps
            &&& fps is None ==> after.one_fps == Some(0u32)
            &&& after == (ConfigView {
                fullscreen_output: after.fullscreen_output,
                one_fps: after.one_fps,
                ..c
            })
        }),
{
}

// ---------------------------------------------------------------------------
// The audio controls
// ---------------------------------------------------------------------------

/// The second control lists what can be chosen: behind the default, each sink by its
/// description, the default one marked; or each application by its name and what it
/// plays.
pub proof fn the_audio_control_lists_the_devices(inv: InventoryView)
    ensures
        ({
            let sinks = detail_labels_of(SystemAudioMode::All, inv);
            let apps = detail_labels_of(SystemAudioMode::App, inv);
            &&& sinks.len() == inv.sinks.len() + 1
            &&& sinks[0] == "Default output"@
            &&& forall|k: int|
                0 <= k < inv.sinks.len() ==> {
                    &&& inv.sinks[k].is_default ==> sinks[k + 1] == (
                    #[trigger] inv.sinks[k]).description + " ★"@
                    &&& !inv.sinks[k].is_default ==> sinks[k + 1] == inv.sinks[k].description
                }
            &&& inv.apps.len() > 0 ==> apps.len() == inv.apps.len()
            &&& forall|k: int|
                0 <= k < inv.apps.len() ==> {
                    &&& starts_in(apps[k], (#[trigger] inv.apps[k]).name)
                    &&& inv.apps[k].media_name is Some ==> ends_in(apps[k], inv.apps[k].media_name->0)
                    &&& inv.apps[k].media_name is None ==> apps[k] == inv.apps[k].name
                }
        }),
{
    let apps = detail_labels_of(SystemAudioMode::App, inv);
    assert forall|k: int| 0 <= k < inv.apps.len() implies {
        &&& starts_in(apps[k], (#[trigger] inv.apps[k]).name)
        &&& inv.apps[k].media_name is Some ==> ends_in(apps[k], inv.apps[k].media_name->0)
        &&& inv.apps[k].media_name is None ==> apps[k] == inv.apps[k].name
    } by {
        let a = inv.apps[k];
        let l = app_label(a);
        assert(apps[k] == l);
        assert(l.take(a.name.len() as int) =~= a.name);
        if a.media_name is Some {
            assert(l.skip(l.len() - a.media_name->0.len()) =~= a.media_name->0);
        }
    }
}

/// The plan that the controls make is what they show: the entry behind the default is
/// the sink that it lists, the application is the one listed there, and a microphone
/// is the one listed behind the default; what does not belong to the mode is left out.
pub proof fn the_audio_controls_make_the_plan(
    mode: SystemAudioMode,
    detail: int,
    mic: bool,
    mic_index: int,
    inv: InventoryView,
)
    ensures
        ({
            let plan = selected_plan(mode, detail, mic, mic_index, inv);
            let mics = mics_of(inv);
            &&& plan.system == mode
            &&& plan.mic == mic
            &&& mode == SystemAudioMode::All && 1 <= detail <= inv.sinks.len() && trim_of(
                inv.sinks[detail - 1].name,
            ).len() > 0 ==> plan.sink == Some(trim_of(inv.sinks[detail - 1].name))
            &&& mode != SystemAudioMode::All || detail == 0 ==> plan.sink is None
            &&& mode == SystemAudioMode::App && 0 <= detail < inv.apps.len() && trim_of(
                inv.apps[detail].name,
            ).len() > 0 ==> plan.app == Some(trim_of(inv.apps[detail].name))
            &&& mode != SystemAudioMode::App ==> plan.app is None
            &&& mic && 1 <= mic_index <= mics.len() && trim_of(mics[mic_index - 1].name).len() > 0
                ==> plan.mic_device == Some(trim_of(mics[mic_index - 1].name))
            &&& !mic || mic_index == 0 ==> plan.mic_device is None
        }),
{
}

/// A sink of a plan is selected in its control, and what is selected there is that
/// sink again.
pub proof fn a_planned_sink_is_selected(inv: InventoryView, plan: PlanView, k: int)
    requires
        0 <= k < inv.sinks.len(),
        plan.sink == Some(inv.sinks[k].name),
        forall|j: int| 0 <= j < k ==> (#[trigger] inv.sinks[j]).name != inv.sinks[k].name,
        trim_of(inv.sinks[k].name) == inv.sinks[k].name,
        inv.sinks[k].name.len() > 0,
    ensures
        detail_selected(SystemAudioMode::All, inv, plan) == k + 1,
        selected_plan(
            SystemAudioMode::All,
            detail_selected(SystemAudioMode::All, inv, plan),
            plan.mic,
            mic_selected(inv, plan),
            inv,
        ).sink == plan.sink,
{
    let p = |s: SinkView| Some(s.name) == plan.sink;
    assert forall|j: int| 0 <= j < k implies !p(#[trigger] inv.sinks[j]) by {
        assert(inv.sinks[j].name != inv.sinks[k].name);
    }
    index_where_is(inv.sinks, p, k);
}

/// An application of a plan is selected in its control, the first that is called so.
pub proof fn a_planned_application_is_selected(inv: InventoryView, plan: PlanView, k: int)
    requires
        0 <= k < inv.apps.len(),
        plan.app is Some,
        same_ignoring_case(inv.apps[k].name, plan.app->0),
        forall|j: int| 0 <= j < k ==> !same_ignoring_case((#[trigger] inv.apps[j]).name, plan.app->0),
    ensures
        detail_selected(SystemAudioMode::App, inv, plan) == k,
{
    let p = |a: AppView| plan.app is Some && same_ignoring_case(a.name, plan.app->0);
    assert forall|j: int| 0 <= j < k implies !p(#[trigger] inv.apps[j]) by {
        assert(!same_ignoring_case(inv.apps[j].name, plan.app->0));
    }
    index_where_is(inv.apps, p, k);
}

/// A microphone of a plan is selected in its control, behind the default.
pub proof fn a_planned_microphone_is_selected(inv: InventoryView, plan: PlanView, k: int)
    requires
        0 <= k < mics_of(inv).len(),
        plan.mic_device == Some(mics_of(inv)[k].name),
        forall|j: int| 0 <= j < k ==> (#[trigger] mics_of(inv)[j]).name != mics_of(inv)[k].name,
    ensures
        mic_selected(inv, plan) == k + 1,
{
    let p = |m: SourceView| Some(m.name) == plan.mic_device;
    assert forall|j: int| 0 <= j < k implies !p(#[trigger] mics_of(inv)[j]) by {
        assert(mics_of(inv)[j].name != mics_of(inv)[k].name);
    }
    index_where_is(mics_of(inv), p, k);
}

/// What a plan does not name, or is not there, leaves the default selected.
pub proof fn the_default_is_selected_otherwise(inv: InventoryView, plan: PlanView)
    ensures
        (forall|j: int| 0 <= j < inv.sinks.len() ==> Some((#[trigger] inv.sinks[j]).name) != plan.sink)
            ==> detail_selected(SystemAudioMode::All, inv, plan) == 0,
        (forall|j: int|
            0 <= j < mics_of(inv).len() ==> Some((#[trigger] mics_of(inv)[j]).name)
                != plan.mic_device) ==> mic_selected(inv, plan) == 0,
        detail_selected(SystemAudioMode::Off, inv, plan) == 0,
{
    let p = |s: SinkView| Some(s.name) == plan.sink;
    let q = |m: SourceView| Some(m.name) == plan.mic_device;
    index_where_props(inv.sinks, p);
    index_where_props(mics_of(inv), q);
    if index_where(inv.sinks, p) < inv.sinks.len() {
        assert(p(inv.sinks[index_where(inv.sinks, p)]));
    }
    if index_where(mics_of(inv), q) < mics_of(inv).len() {
        assert(q(mics_of(inv)[index_where(mics_of(inv), q)]));
    }
}

proof fn lemma_real_inputs(sources: Seq<SourceView>)
    ensures
        forall|k: int|
            0 <= k < sources.filter(is_mic()).len() ==> !(#[trigger] sources.filter(
                is_mic(),
            )[k]).is_monitor && sources.contains(sources.filter(is_mic())[k]),
        forall|i: int|
            0 <= i < sources.len() && !(#[trigger] sources[i]).is_monitor ==> sources.filter(
                is_mic(),
            ).contains(sources[i]),
    decreases sources.len(),
{
    reveal(Seq::filter);
    if sources.len() > 0 {
        let rest = sources.drop_last();
        lemma_real_inputs(rest);
        let n = sources.len() - 1;
        let all = sources.filter(is_mic());
        let some = rest.filter(is_mic());
        assert(is_mic()(sources.last()) == !sources[n].is_monitor);
        assert forall|k: int| 0 <= k < all.len() implies !(#[trigger] all[k]).is_monitor
            && sources.contains(all[k]) by {
            if k < some.len() {
                assert(all[k] == some[k]);
                let i = rest.index_of(some[k]);
                assert(sources[i] == some[k]);
            } else {
                assert(sources[n] == all[k]);
            }
        }
        assert forall|i: int|
            0 <= i < sources.len() && !(#[trigger] sources[i]).is_monitor implies all.contains(
            sources[i],
        ) by {
            if i < n {
                assert(rest[i] == sources[i]);
                let k = some.index_of(sources[i]);
                assert(all[k] == sources[i]);
            } else {
                assert(all[all.len() - 1] == sources[i]);
            }
        }
    }
}

/// The microphones listed are real inputs of the inventory, and all of them.
pub proof fn the_microphones_are_the_real_inputs(inv: InventoryView)
    ensures
        forall|k: int|
            0 <= k < mics_of(inv).len() ==> !(#[trigger] mics_of(inv)[k]).is_monitor
                && inv.sources.contains(mics_of(inv)[k]),
        forall|i: int|
            0 <= i < inv.sources.len() && !(#[trigger] inv.sources[i]).is_monitor ==> mics_of(
                inv,
            ).contains(inv.sources[i]),
{
    lemma_real_inputs(inv.sources);
}

/// The first entry of the mode control is off, the second everything, the third one
/// application.
pub proof fn the_mode_control_has_three_entries(index: u32)
    ensures
        mode_at(index) == SystemAudioMode::All <==> index == 1,
        mode_at(index) == SystemAudioMode::App <==> index == 2,
        mode_at(index) == SystemAudioMode::Off <==> index != 1 && index != 2,
{
}

/// The jobs of a batch are those of its starts, in order.
pub proof fn jobs_keep_their_order(cs: Seq<CmdView>, c: CmdView)
    ensures
        jobs_of(Seq::empty()).len() == 0,
        job_of(c) is None ==> jobs_of(cs.push(c)) == jobs_of(cs),
        job_of(c) is Some ==> jobs_of(cs.push(c)) == jobs_of(cs).push(job_of(c)->0),
{
    let f = |c: CmdView| job_of(c);
    let all = cs.push(c).map_values(f);
    assert(all.drop_last() =~= cs.map_values(f));
    assert(all.last() == job_of(c));
}

/// The session's audio counts as seen once a status came; attaching anew forgets it
/// first. What was asked for and its number stay as they are.
pub proof fn a_status_brings_the_audio(v: ViewModel, s: IpcStatusView, at: Moment)
    ensures
        v.after_msg(MsgView::Status(s), at).audio_from_server,
        v.after_msg(MsgView::Subscribed(s), at).audio_from_server,
        v.after_msg(MsgView::Status(s), at).start_epoch == v.start_epoch,
        v.after_msg(MsgView::Status(s), at).epochs == v.epochs,
        v.after_msg(MsgView::Status(s), at).start_in_flight == v.start_in_flight,
        v.after_msg(MsgView::Status(s), at).stop_in_flight == v.stop_in_flight,
        v.after_msg(MsgView::Status(s), at).stopping_both == v.stopping_both,
{
}

/// Asking to stop is remembered, with whether two monitors are composed then; it makes a
/// start that is under way late, and the next start gets a number of its own.
pub proof fn a_stop_is_remembered(v: ViewModel, was_both: bool)
    ensures
        v.stop_asked(was_both).stop_in_flight,
        v.stop_asked(was_both).stopping_both == was_both,
        v.stop_asked(was_both).start_in_flight == v.start_in_flight,
        v.start_in_flight ==> v.stop_asked(was_both).start_epoch == v.next_epoch(),
        !v.start_in_flight ==> v.stop_asked(was_both).start_epoch == v.start_epoch,
        v.next_epoch() != v.epochs,
        v.epochs < u64::MAX ==> v.next_epoch() == v.epochs + 1,
        v.is_both(true) == (v.start_in_flight || (v.last_status is Some
            && v.last_status->0.capture_mode == Some("both"@))),
        v.is_both(false) == (v.last_status is Some && v.last_status->0.capture_mode == Some(
            "both"@,
        )),
{
}

/// An answer that is not late ends what was asked and brings its status; a late one, to a
/// start that no longer counts, changes nothing. So it is with a failure.
pub proof fn only_answers_that_count_change_anything(v: ViewModel, m: MsgView, at: Moment)
    ensures
        m is OpDone && m->kind == OpKind::Start && m->OpDone_epoch != v.start_epoch ==> v.after_msg(
            m,
            at,
        ) == v && v.effects(m, at).shown is None && !v.effects(m, at).present,
        m is OpDone && (m->kind == OpKind::Stop || m->OpDone_epoch == v.start_epoch) ==> {
            &&& v.after_msg(m, at).last_status == Some(m->resp.status)
            &&& !v.after_msg(m, at).start_in_flight
            &&& m->kind == OpKind::Stop ==> !v.after_msg(m, at).stop_in_flight
            &&& m->kind == OpKind::Start ==> v.after_msg(m, at).stop_in_flight
                == v.stop_in_flight
        },
        m is Error && m->source == ErrorSource::Start && m->Error_epoch == v.start_epoch
            ==> !v.after_msg(m, at).start_in_flight,
        m is Error && m->source == ErrorSource::Start && m->Error_epoch != v.start_epoch
            ==> v.after_msg(m, at) == v,
        m is Error && m->source == ErrorSource::Stop ==> !v.after_msg(m, at).stop_in_flight
            && !v.after_msg(m, at).start_in_flight,
        m is Error && m->source == ErrorSource::Status ==> v.after_msg(m, at) == v,
{
}

/// A request that was answered ends a row of failures; one that was not leaves it.
pub proof fn an_answer_ends_a_row_of_failures(
    link: crate::worker::Link,
    r: Result<crate::ipc::IpcResponse, crate::client::ClientError>,
)
    ensures
        r is Ok ==> link.failures_after(r) == 0,
        r is Err ==> link.failures_after(r) == link.failures(),
{
}

/// The rates are rebuilt for the monitor that is selected: its own rate is offered and
/// marked where it is known, the rate asked for stays selected, and automatic stays
/// automatic where that is to be kept.
pub proof fn the_rates_are_those_of_the_monitor(
    p: PickerView,
    prefer: Option<u32>,
    keep_auto: bool,
)
    requires
        0 <= p.monitor < p.inventory.len(),
    ensures
        ({
            let after = p.rebuilt(prefer, keep_auto);
            let own = native_rate(p.inventory[p.monitor].refresh);
            &&& own is Some ==> after.rates[1].is_native && after.rates[1].fps == own
            &&& own is None ==> forall|i: int|
                0 <= i < after.rates.len() ==> !(#[trigger] after.rates[i]).is_native
            &&& keep_auto ==> after.fps() is None
            &&& !keep_auto && prefer is Some && prefer->0 > 0 ==> after.fps() == prefer
            &&& !keep_auto && prefer is None ==> after.fps() == own
            &&& after.inventory == p.inventory && after.monitor == p.monitor
        }),
{
    let own = native_rate(p.inventory[p.monitor].refresh);
    let rates = offered_rates(own, prefer);
    the_rates_offered_are_labelled(own, prefer);
    the_rate_asked_for_is_selected(rates, prefer, true);
    the_rate_asked_for_is_selected(rates, None, false);
    assert(p.native() == own);
    let at = selected_rate(rates, prefer, true);
    if prefer is Some && prefer->0 > 0 {
        let i = choose|i: int| 0 < i < rates.len() && (#[trigger] rates[i]).fps == prefer;
        assert(rates[i].fps == prefer);
    }
    if own is Some {
        assert(rates[1].is_native);
    } else {
        assert forall|i: int| 0 <= i < rates.len() implies !(#[trigger] rates[i]).is_native by {
            if i > 0 {
                assert(rates[i].is_native ==> rates[i].fps == own);
            }
        }
    }
}

/// The pickers open with the rate of the configuration, zero being automatic; without one
/// with the monitor's own rate where it is known, and else with automatic.
pub proof fn the_pickers_open_as_configured(
    inventory: Seq<OutputView>,
    c: ConfigView,
    monitor: int,
)
    requires
        0 <= monitor < inventory.len(),
    ensures
        ({
            let p = opened_pickers(inventory, c, monitor);
            &&& c.one_fps is Some && c.one_fps->0 > 0 ==> p.fps() == c.one_fps
            &&& c.one_fps == Some(0u32) ==> p.fps() is None
            &&& c.one_fps is None ==> p.fps() == native_rate(inventory[monitor].refresh)
            &&& p.output_name() == Some(inventory[monitor].name)
            &&& p.inventory == inventory
        }),
{
    let p = PickerView { inventory, rates: Seq::empty(), monitor, rate: 0, suppressed: false };
    let prefer = if c.one_fps is Some && c.one_fps->0 > 0 {
        c.one_fps
    } else {
        None
    };
    the_rates_are_those_of_the_monitor(p, prefer, c.one_fps == Some(0u32));
}

} // verus!
