//! Laws of the recording session: what every command keeps, whatever the ports
//! answer.

use vstd::prelude::*;
use vstd::string::*;

use crate::audio::cleaned;
use crate::both::{
    both_kill_run, both_named_run, both_quit_end, both_run, both_stop_run, both_stopped, both_temps_run,
    both_terminate_run, lost_run, peer_ended, quit_message, BothView,
};
use crate::config::ConfigView;
use crate::dual::{
    both_allocation, end_pair_run, joined_stderr, reap_pair_run, reaped_or_gone, reported, running,
    wait_pair_run, BothFiles, Pair,
};
use crate::output::resolved_output;
use crate::outputs::{names_of, OutputView};
use crate::ports::{
    absolute_path, ChildHandle, Clipboard, Clock, CommandSpawner, ExitStatus, Notifier, PortError,
    Signal, Timestamp,
};
use crate::reap::{killed_run, look_run, recorder_run, slurp_run};
use crate::recorder::Recorder;
use crate::session::{
    check_run, exited_run, finish_run, fullscreen_run, given_up_run, interrupt_error, kill_run,
    output_run, poll_run, region_run, saved_run, selected_run, shutdown_run, stop_recorder_run, stop_run,
    stop_timed_out,
    toggle_run, told, RecView, SiteView, StepView,
};
use crate::status::{MachineCode, ResultView, State, StatusView};
use crate::trace::PortCall;

verus! {

// ---------------------------------------------------------------------------
// What calls contain
// ---------------------------------------------------------------------------

/// No child is started.
pub open spec fn spawns_nothing(calls: Seq<PortCall>) -> bool {
    forall|i: int| 0 <= i < calls.len() ==> !(#[trigger] calls[i] is Spawn)
}

/// The clipboard is left alone.
pub open spec fn copies_nothing(calls: Seq<PortCall>) -> bool {
    forall|i: int| 0 <= i < calls.len() ==> !(#[trigger] calls[i] is Copy)
}

/// No signal is sent.
pub open spec fn signals_nothing(calls: Seq<PortCall>) -> bool {
    forall|i: int| 0 <= i < calls.len() ==> !(#[trigger] calls[i] is Signal)
}

/// The signals sent to process groups, in order.
pub open spec fn group_signals(calls: Seq<PortCall>) -> Seq<Signal>
    decreases calls.len(),
{
    if calls.len() == 0 {
        Seq::empty()
    } else {
        match calls.last() {
            PortCall::Signal { who: _, group: true, signal, failed: _ } => group_signals(
                calls.drop_last(),
            ).push(signal),
            _ => group_signals(calls.drop_last()),
        }
    }
}

proof fn lemma_look(calls: Seq<PortCall>, who: int, paced: bool, tries: nat)
    requires
        look_run(calls, who, paced, tries),
    ensures
        spawns_nothing(calls),
        copies_nothing(calls),
        signals_nothing(calls),
    decreases tries,
{
    if tries > 0 && !(calls[0]->TryWait_answer matches Ok(Some(_))) {
        let n: int = if paced {
            2
        } else {
            1
        };
        let rest = calls.skip(n);
        lemma_look(rest, who, paced, (tries - 1) as nat);
        assert forall|i: int| 0 <= i < calls.len() implies !(#[trigger] calls[i] is Spawn)
            && !(calls[i] is Copy) && !(calls[i] is Signal) by {
            if i >= n {
                assert(calls[i] == rest[i - n]);
            }
        }
    }
}

proof fn lemma_killed(calls: Seq<PortCall>, who: int, paced: bool)
    requires
        killed_run(calls, who, paced),
    ensures
        spawns_nothing(calls),
        copies_nothing(calls),
        signals_nothing(calls),
{
    if !(calls[0]->Wait_answer is Ok) {
        let rest = calls.skip(1);
        lemma_look(rest, who, paced, 50);
        assert forall|i: int| 0 <= i < calls.len() implies !(#[trigger] calls[i] is Spawn)
            && !(calls[i] is Copy) && !(calls[i] is Signal) by {
            if i >= 1 {
                assert(calls[i] == rest[i - 1]);
            }
        }
    }
}

pub(crate) proof fn lemma_slurp(calls: Seq<PortCall>, who: int)
    requires
        slurp_run(calls, who),
    ensures
        spawns_nothing(calls),
        copies_nothing(calls),
{
    if calls.len() > 2 {
        let rest = calls.skip(3);
        lemma_killed(rest, who, false);
        assert forall|i: int| 0 <= i < calls.len() implies !(#[trigger] calls[i] is Spawn)
            && !(calls[i] is Copy) by {
            if i >= 3 {
                assert(calls[i] == rest[i - 3]);
            }
        }
    }
}

/// No child is started and the clipboard is left alone.
pub open spec fn quiet(calls: Seq<PortCall>) -> bool {
    spawns_nothing(calls) && copies_nothing(calls)
}

pub(crate) proof fn lemma_quiet(a: Seq<PortCall>, b: Seq<PortCall>)
    requires
        quiet(a),
        quiet(b),
    ensures
        quiet(a + b),
{
    let all = a + b;
    assert forall|i: int| 0 <= i < all.len() implies !(#[trigger] all[i] is Spawn)
        && !(all[i] is Copy) by {
        if i < a.len() {
            assert(all[i] == a[i]);
        } else {
            assert(all[i] == b[i - a.len()]);
        }
    }
}

pub(crate) proof fn lemma_recorder(calls: Seq<PortCall>, who: int)
    requires
        recorder_run(calls, who),
    ensures
        quiet(calls),
{
    if calls.len() > 4 {
        let rest = calls.skip(5);
        lemma_killed(rest, who, true);
        assert forall|i: int| 0 <= i < calls.len() implies !(#[trigger] calls[i] is Spawn)
            && !(calls[i] is Copy) by {
            if i >= 5 {
                assert(calls[i] == rest[i - 5]);
            }
        }
    }
}

proof fn lemma_end_pair(calls: Seq<PortCall>, pair: Pair)
    requires
        end_pair_run(calls, pair),
    ensures
        quiet(calls),
{
    let k = choose|k: int|
        {
            &&& 0 <= k <= calls.len()
            &&& #[trigger] recorder_run(calls.take(k), pair.a)
            &&& recorder_run(calls.skip(k), pair.b)
        };
    lemma_recorder(calls.take(k), pair.a);
    lemma_recorder(calls.skip(k), pair.b);
    lemma_quiet(calls.take(k), calls.skip(k));
    assert(calls =~= calls.take(k) + calls.skip(k));
}

proof fn lemma_reap_pair(
    calls: Seq<PortCall>,
    pair: Pair,
    a: Option<ExitStatus>,
    b: Option<ExitStatus>,
)
    requires
        reap_pair_run(calls, pair, a, b),
    ensures
        quiet(calls),
{
    let k = choose|k: int|
        {
            &&& 0 <= k <= calls.len()
            &&& #[trigger] reaped_or_gone(calls.take(k), pair.a, a)
            &&& reaped_or_gone(calls.skip(k), pair.b, b)
        };
    if a is None {
        lemma_killed(calls.take(k), pair.a, true);
    }
    if b is None {
        lemma_killed(calls.skip(k), pair.b, true);
    }
    lemma_quiet(calls.take(k), calls.skip(k));
    assert(calls =~= calls.take(k) + calls.skip(k));
}

pub(crate) proof fn lemma_lost(
    pre: RecView,
    primary: bool,
    looked: Result<Option<ExitStatus>, Seq<char>>,
    calls: Seq<PortCall>,
    post: RecView,
    out: Option<StepView>,
)
    requires
        lost_run(pre, primary, looked, calls, post, out),
    ensures
        quiet(calls),
        post.state == State::Idle,
        post.last_success_path == pre.last_success_path,
        post.discard == pre.discard,
        post.recorder is None,
        post.pair is None,
        out is Some,
        out->0 is Done,
        !(out->0->Done_0.ok),
        post.last_error == Some(out->0->Done_0.message),
{
    let (k, message) = choose|k: int, message: Seq<char>|
        {
            &&& 0 <= k <= calls.len()
            &&& #[trigger] peer_ended(
                pre.both->0,
                pre.pair->0,
                primary,
                looked,
                calls.take(k),
                message,
            )
            &&& told(pre.config.notify, message, calls.skip(k))
            &&& post == pre.over().with_error(message)
            &&& out == Some(StepView::Done(ResultView::failed(MachineCode::IoError, message)))
        };
    let first = calls.take(k);
    let pair = pre.pair->0;
    match looked {
        Ok(Some(_)) => {
            lemma_recorder(
                first.skip(1),
                if primary {
                    pair.b
                } else {
                    pair.a
                },
            );
            lemma_quiet(seq![first[0]], first.skip(1));
            assert(first =~= seq![first[0]] + first.skip(1));
        },
        Ok(None) => {},
        Err(_) => {
            lemma_end_pair(first, pair);
        },
    }
    lemma_quiet(first, calls.skip(k));
    assert(calls =~= first + calls.skip(k));
}

proof fn lemma_both_stop(pre: RecView, calls: Seq<PortCall>, post: RecView, out: StepView)
    requires
        both_stop_run(pre, calls, post, out),
    ensures
        quiet(calls),
        escalated(post.stop_sent_signals),
        out == StepView::CheckTemps <==> post.stop_sent_signals.len() < 3,
        out is Done ==> {
            &&& post.state == State::Idle
            &&& post.pair is None
            &&& post.both is None
            &&& !out->Done_0.ok
            &&& post.last_error == Some(out->Done_0.message)
            &&& names_recordings(pre.both->0, out->Done_0.message)
        },
        out is Done || out is CheckTemps,
        out is CheckTemps ==> post.both == pre.both,
        post.discard == pre.discard,
        post.last_success_path == pre.last_success_path,
{
    let head = calls.take(7);
    assert(quiet(head)) by {
        assert forall|i: int| 0 <= i < head.len() implies !(#[trigger] head[i] is Spawn)
            && !(head[i] is Copy) by {
            if 1 <= i < 3 {
                assert(head[i] == calls.subrange(1, 3)[i - 1]);
            } else if i >= 3 {
                assert(head[i] == calls.subrange(3, 7)[i - 3]);
            }
        }
    }
    let a = reported(calls[4]->WaitTimeout_answer);
    let b = reported(calls[6]->WaitTimeout_answer);
    let rest = calls.skip(7);
    assert(calls =~= head + rest);
    if !(a is Some && b is Some) {
        let asked = RecView {
            stopping_pid: Some(calls[0]->pid),
            stop_sent_signals: seq![Signal::Interrupt],
            ..pre
        };
        lemma_both_terminate(asked, a, b, rest, post, out);
    }
    lemma_quiet(head, rest);
}

proof fn lemma_both_terminate(
    pre: RecView,
    a: Option<ExitStatus>,
    b: Option<ExitStatus>,
    calls: Seq<PortCall>,
    post: RecView,
    out: StepView,
)
    requires
        both_terminate_run(pre, a, b, calls, post, out),
    ensures
        quiet(calls),
        post.stop_sent_signals == seq![Signal::Interrupt, Signal::Terminate]
            || post.stop_sent_signals == seq![Signal::Interrupt, Signal::Terminate, Signal::Kill],
        out == StepView::CheckTemps <==> post.stop_sent_signals.len() < 3,
        out is Done ==> {
            &&& post.state == State::Idle
            &&& post.pair is None
            &&& post.both is None
            &&& !out->Done_0.ok
            &&& post.last_error == Some(out->Done_0.message)
            &&& names_recordings(pre.both->0, out->Done_0.message)
        },
        out is Done || out is CheckTemps,
        out is CheckTemps ==> post.both == pre.both,
        post.discard == pre.discard,
        post.last_success_path == pre.last_success_path,
{
    let n = running(a) + running(b);
    let sent = calls.take(n);
    let waited = calls.subrange(n, 2 * n + 2);
    let rest = calls.skip(2 * n + 2);
    let (a2, b2) = choose|a2: Option<ExitStatus>, b2: Option<ExitStatus>|
        {
            &&& #[trigger] wait_pair_run(
                waited,
                pre.pair->0,
                a,
                b,
                pre.config.stop_term_timeout_ms,
                a2,
                b2,
            )
            &&& if a2 is Some && b2 is Some {
                both_stopped(
                    RecView {
                        stop_sent_signals: seq![Signal::Interrupt, Signal::Terminate],
                        ..pre
                    },
                    rest,
                    post,
                    out,
                )
            } else {
                both_kill_run(
                    RecView {
                        stop_sent_signals: seq![Signal::Interrupt, Signal::Terminate],
                        ..pre
                    },
                    a2,
                    b2,
                    rest,
                    post,
                    out,
                )
            }
        };
    assert(quiet(sent));
    assert(quiet(waited)) by {
        assert forall|i: int| 0 <= i < waited.len() implies !(#[trigger] waited[i] is Spawn)
            && !(waited[i] is Copy) by {}
    }
    let asked = RecView {
        stop_sent_signals: seq![Signal::Interrupt, Signal::Terminate],
        ..pre
    };
    if !(a2 is Some && b2 is Some) {
        lemma_both_kill(asked, a2, b2, rest, post, out);
    }
    lemma_quiet(sent, waited);
    lemma_quiet(sent + waited, rest);
    assert(calls =~= sent + waited + rest);
}

proof fn lemma_both_kill(
    pre: RecView,
    a: Option<ExitStatus>,
    b: Option<ExitStatus>,
    calls: Seq<PortCall>,
    post: RecView,
    out: StepView,
)
    requires
        both_kill_run(pre, a, b, calls, post, out),
    ensures
        quiet(calls),
        post.stop_sent_signals == seq![Signal::Interrupt, Signal::Terminate, Signal::Kill],
        out is Done,
        !out->Done_0.ok,
        post.last_error == Some(out->Done_0.message),
        names_recordings(pre.both->0, out->Done_0.message),
        post.state == State::Idle,
        post.pair is None,
        post.both is None,
        post.discard == pre.discard,
        post.last_success_path == pre.last_success_path,
{
    let n = running(a) + running(b);
    let files = pre.both->0;
    let k = choose|k: int|
        {
            &&& n <= k
            &&& k + 2 <= calls.len()
            &&& #[trigger] reap_pair_run(calls.subrange(n, k), pre.pair->0, a, b)
            &&& calls[k] is Stderr && calls[k]->Stderr_who == pre.pair->0.a
            &&& calls[k + 1] is Stderr && calls[k + 1]->Stderr_who == pre.pair->0.b
            &&& given_up_run(
                pre,
                stop_timed_out(
                    Some(files.a + ", "@ + files.b),
                    joined_stderr(calls[k]->Stderr_text, calls[k + 1]->Stderr_text),
                ),
                calls.skip(k + 2),
                post,
                out,
            )
        };
    let sent = calls.take(n);
    let reaped = calls.subrange(n, k);
    let texts = calls.subrange(k, k + 2);
    let last = calls.skip(k + 2);
    lemma_reap_pair(reaped, pre.pair->0, a, b);
    assert(texts =~= seq![calls[k], calls[k + 1]]);
    assert(quiet(texts));
    lemma_quiet(sent, reaped);
    lemma_quiet(sent + reaped, texts);
    lemma_quiet(sent + reaped + texts, last);
    assert(calls =~= sent + reaped + texts + last);
}

/// SIGINT alone, or with SIGTERM, or with SIGKILL behind both.
pub open spec fn escalated(signals: Seq<Signal>) -> bool {
    signals == seq![Signal::Interrupt] || signals == seq![Signal::Interrupt, Signal::Terminate]
        || signals == seq![Signal::Interrupt, Signal::Terminate, Signal::Kill]
}

proof fn lemma_no_group_signals(calls: Seq<PortCall>)
    requires
        signals_nothing(calls),
    ensures
        group_signals(calls) == Seq::<Signal>::empty(),
    decreases calls.len(),
{
    if calls.len() > 0 {
        assert(!(calls[calls.len() - 1] is Signal));
        assert forall|i: int| 0 <= i < calls.drop_last().len() implies !(
        #[trigger] calls.drop_last()[i] is Signal) by {
            assert(calls.drop_last()[i] == calls[i]);
        }
        lemma_no_group_signals(calls.drop_last());
    }
}

proof fn lemma_group_signals_concat(a: Seq<PortCall>, b: Seq<PortCall>)
    ensures
        group_signals(a + b) == group_signals(a) + group_signals(b),
    decreases b.len(),
{
    if b.len() == 0 {
        assert(a + b =~= a);
        assert(group_signals(a) + group_signals(b) =~= group_signals(a));
    } else {
        assert((a + b).drop_last() =~= a + b.drop_last());
        assert((a + b).last() == b.last());
        lemma_group_signals_concat(a, b.drop_last());
        assert(group_signals(a + b) =~= group_signals(a) + group_signals(b));
    }
}

// ---------------------------------------------------------------------------
// Laws
// ---------------------------------------------------------------------------

/// A session runs the region selector, or one recorder, or two of them for two
/// monitors; at rest it runs nothing.
pub proof fn children_follow_the_mode(v: RecView)
    requires
        v.wf(),
    ensures
        !(v.selector is Some && v.recorder is Some),
        !(v.selector is Some && v.pair is Some),
        !(v.recorder is Some && v.pair is Some),
        v.state == State::Idle ==> v.selector is None && v.recorder is None && v.pair is None,
        v.pair is Some ==> v.both is Some && v.pair->0.a != v.pair->0.b,
{
}

/// While a session is under way every start is refused as busy, calls no port
/// and changes nothing.
pub proof fn busy_session_refuses_starts(
    pre: RecView,
    audio: Option<bool>,
    notify_start: bool,
    output: Option<Seq<char>>,
    fps: Option<u32>,
    outputs: Seq<OutputView>,
    calls: Seq<PortCall>,
    post: RecView,
    out: StepView,
)
    requires
        pre.state != State::Idle,
        region_run(pre, audio, notify_start, calls, post, out) || fullscreen_run(
            pre,
            audio,
            notify_start,
            output,
            fps,
            names_of(outputs),
            calls,
            post,
            out,
        ) || both_run(pre, audio, notify_start, outputs, calls, post, out),
    ensures
        calls.len() == 0,
        post == pre,
        out == StepView::Done(ResultView::busy(pre.state)),
{
}

/// Once a stop is over, stopping again does nothing.
pub proof fn stopping_again_does_nothing(
    pre: RecView,
    calls: Seq<PortCall>,
    mid: RecView,
    r: ResultView,
    more: Seq<PortCall>,
    post: RecView,
    out: StepView,
)
    requires
        pre.wf(),
        pre.state != State::Stopping,
        stop_run(pre, calls, mid, StepView::Done(r)),
        stop_run(mid, more, post, out),
    ensures
        mid.state == State::Idle,
        more.len() == 0,
        post == mid,
        out == StepView::Done(ResultView::done("already idle"@)),
{
    if pre.state == State::Recording && pre.pair is Some {
        lemma_both_stop(pre, calls, mid, StepView::Done(r));
    }
}

/// Toggling while a session is under way starts no child.
pub proof fn toggle_while_busy_spawns_nothing(
    pre: RecView,
    audio: Option<bool>,
    notify_start: bool,
    calls: Seq<PortCall>,
    post: RecView,
    out: StepView,
)
    requires
        pre.state != State::Idle,
        toggle_run(pre, audio, notify_start, calls, post, out),
    ensures
        spawns_nothing(calls),
{
    match pre.state {
        State::SelectingRegion => {
            lemma_slurp(calls, pre.selector->0);
        },
        State::Recording => {
            if pre.pair is Some {
                lemma_both_stop(pre, calls, post, out);
            } else {
                lemma_stop_calls(pre, calls, post, out);
            }
        },
        _ => {},
    }
}

/// The session after SIGINT and SIGTERM, given the calls of its stop.
spec fn terminated(pre: RecView, calls: Seq<PortCall>) -> RecView {
    RecView {
        stopping_pid: Some(calls[0]->pid),
        stop_sent_signals: seq![Signal::Interrupt, Signal::Terminate],
        last_error: interrupt_error(
            pre,
            calls[1]->Signal_failed,
            calls[2]->WaitTimeout_answer,
        ),
        ..pre
    }
}

#[verifier::rlimit(40)]
proof fn lemma_stop_calls(pre: RecView, calls: Seq<PortCall>, post: RecView, out: StepView)
    requires
        stop_recorder_run(pre, calls, post, out),
    ensures
        spawns_nothing(calls),
        copies_nothing(calls),
        group_signals(calls) == post.stop_sent_signals,
        post.stop_sent_signals == seq![Signal::Interrupt] || post.stop_sent_signals == seq![
            Signal::Interrupt,
            Signal::Terminate,
        ] || post.stop_sent_signals == seq![Signal::Interrupt, Signal::Terminate, Signal::Kill],
{
    reveal_with_fuel(group_signals, 8);
    let head = calls.take(3);
    assert(head =~= seq![calls[0], calls[1], calls[2]]);
    assert(head.drop_last().drop_last().drop_last() =~= Seq::<PortCall>::empty());
    assert(group_signals(head) =~= seq![Signal::Interrupt]);
    let rest = calls.skip(3);
    assert(calls =~= head + rest);
    lemma_group_signals_concat(head, rest);
    match calls[2]->WaitTimeout_answer {
        Ok(Some(_)) => {
            assert(rest =~= seq![calls[3]]);
            assert(rest.drop_last() =~= Seq::<PortCall>::empty());
            assert(group_signals(calls) =~= seq![Signal::Interrupt]);
        },
        _ => {
            let head2 = rest.take(2);
            assert(head2 =~= seq![rest[0], rest[1]]);
            assert(head2.drop_last().drop_last() =~= Seq::<PortCall>::empty());
            assert(group_signals(head2) =~= seq![Signal::Terminate]);
            let rest2 = rest.skip(2);
            assert(rest =~= head2 + rest2);
            lemma_group_signals_concat(head2, rest2);
            match rest[1]->WaitTimeout_answer {
                Ok(Some(_)) => {
                    assert(rest2 =~= seq![rest[2]]);
                    assert(rest2.drop_last() =~= Seq::<PortCall>::empty());
                    assert(group_signals(calls) =~= seq![Signal::Interrupt, Signal::Terminate]);
                    assert forall|i: int| 0 <= i < calls.len() implies !(
                    #[trigger] calls[i] is Spawn) && !(calls[i] is Copy) by {
                        if i >= 3 {
                            assert(calls[i] == rest[i - 3]);
                        }
                    }
                },
                _ => {
                    lemma_kill_calls(terminated(pre, calls), rest2, post, out);
                    assert(group_signals(calls) =~= seq![
                        Signal::Interrupt,
                        Signal::Terminate,
                        Signal::Kill,
                    ]);
                    assert forall|i: int| 0 <= i < calls.len() implies !(
                    #[trigger] calls[i] is Spawn) && !(calls[i] is Copy) by {
                        if i >= 5 {
                            assert(calls[i] == rest2[i - 5]);
                        } else if i >= 3 {
                            assert(calls[i] == rest[i - 3]);
                        }
                    }
                },
            }
        },
    }
}

proof fn lemma_kill_calls(pre: RecView, calls: Seq<PortCall>, post: RecView, out: StepView)
    requires
        kill_run(pre, calls, post, out),
    ensures
        spawns_nothing(calls),
        copies_nothing(calls),
        group_signals(calls) == seq![Signal::Kill],
        post.stop_sent_signals == seq![Signal::Interrupt, Signal::Terminate, Signal::Kill],
{
    reveal_with_fuel(group_signals, 3);
    let who = pre.recorder->0;
    let k = choose|k: int|
        {
            &&& 1 <= k < calls.len()
            &&& #[trigger] killed_run(calls.subrange(1, k), who, true)
            &&& calls[k] matches PortCall::Stderr { who: ck, text }
            &&& ck == who
            &&& given_up_run(
                pre,
                stop_timed_out(pre.output_path, text),
                calls.skip(k + 1),
                post,
                out,
            )
        };
    let reaped = calls.subrange(1, k);
    lemma_killed(reaped, who, true);
    lemma_no_group_signals(reaped);
    let first = calls.take(1);
    assert(first =~= seq![calls[0]]);
    assert(first.drop_last() =~= Seq::<PortCall>::empty());
    assert(group_signals(first) =~= seq![Signal::Kill]);
    let last = calls.skip(k);
    assert(signals_nothing(last)) by {
        assert forall|i: int| 0 <= i < last.len() implies !(#[trigger] last[i] is Signal) by {
            if i > 0 {
                assert(last[i] == calls.skip(k + 1)[i - 1]);
            }
        }
    }
    lemma_no_group_signals(last);
    assert(calls =~= first + reaped + last);
    lemma_group_signals_concat(first, reaped);
    lemma_group_signals_concat(first + reaped, last);
    assert(group_signals(calls) =~= seq![Signal::Kill]);
    assert forall|i: int| 0 <= i < calls.len() implies !(#[trigger] calls[i] is Spawn)
        && !(calls[i] is Copy) by {
        if 1 <= i < k {
            assert(calls[i] == reaped[i - 1]);
        } else if i > k {
            assert(calls[i] == calls.skip(k + 1)[i - k - 1]);
        }
    }
}

/// Stopping one recorder signals its process group with SIGINT first, with SIGTERM
/// only after that, and with SIGKILL only after both; the signals remembered are
/// the signals sent.
pub proof fn stop_signals_escalate(
    pre: RecView,
    calls: Seq<PortCall>,
    post: RecView,
    out: StepView,
)
    requires
        pre.state == State::Recording,
        pre.pair is None,
        stop_run(pre, calls, post, out),
    ensures
        group_signals(calls) == post.stop_sent_signals,
        post.stop_sent_signals == seq![Signal::Interrupt] || post.stop_sent_signals == seq![
            Signal::Interrupt,
            Signal::Terminate,
        ] || post.stop_sent_signals == seq![Signal::Interrupt, Signal::Terminate, Signal::Kill],
        out == StepView::CheckOutput <==> post.stop_sent_signals.len() < 3,
{
    lemma_stop_calls(pre, calls, post, out);
    let rest = calls.skip(3);
    let rest2 = rest.skip(2);
    match calls[2]->WaitTimeout_answer {
        Ok(Some(_)) => {},
        _ => {
            match rest[1]->WaitTimeout_answer {
                Ok(Some(_)) => {},
                _ => {
                    lemma_kill_calls(terminated(pre, calls), rest2, post, out);
                },
            }
        },
    }
}

/// A recording that has ended is a success exactly if it was stopped on request
/// and its file is there and not empty; the exit code does not matter.
pub proof fn success_needs_request_and_file(
    pre: RecView,
    file: Result<bool, Seq<char>>,
    calls: Seq<PortCall>,
    post: RecView,
    out: ResultView,
)
    requires
        finish_run(pre, file, calls, post, out),
    ensures
        out.ok <==> pre.pending->cooperative && file == Ok::<bool, Seq<char>>(true),
        post.state == State::Idle,
{
}

/// A hook that failed: the path was not copied, or the notification not shown.
pub open spec fn hook_failed(call: PortCall) -> bool {
    match call {
        PortCall::Copy { text: _, failed } => failed is Some,
        PortCall::Notify { title: _, body: _, failed } => failed is Some,
        _ => false,
    }
}

/// A recording that was saved stays a success whatever becomes of the hooks: one
/// that fails is a warning, and nothing else is.
pub proof fn failed_hooks_are_warnings(
    config: ConfigView,
    path: Seq<char>,
    status: ExitStatus,
    calls: Seq<PortCall>,
    out: ResultView,
)
    requires
        saved_run(config, path, status, calls, out),
    ensures
        out.ok,
        out.code == MachineCode::Success,
        out.warnings.len() == 0 <==> (forall|i: int|
            0 <= i < calls.len() ==> !hook_failed(#[trigger] calls[i])),
{
    let n: int = if config.copy_path {
        1
    } else {
        0
    };
    if config.copy_path {
        assert(hook_failed(calls[0]) == calls[0]->Copy_failed is Some);
    }
    if config.notify {
        assert(hook_failed(calls[n]) == calls[n]->Notify_failed is Some);
    }
}

/// Only a success touches the clipboard and the path of the last success: a
/// failure copies nothing and keeps that path.
pub proof fn failure_keeps_clipboard_and_path(
    pre: RecView,
    file: Result<bool, Seq<char>>,
    calls: Seq<PortCall>,
    post: RecView,
    out: ResultView,
)
    requires
        finish_run(pre, file, calls, post, out),
    ensures
        !out.ok ==> copies_nothing(calls) && post.last_success_path == pre.last_success_path
            && post.last_error == Some(out.message),
        out.ok ==> post.last_success_path == Some(pre.output_path->0) && post.last_error is None,
{
}

/// A recorder that exits by itself never leads to a success.
pub proof fn unexpected_exit_is_no_success(
    pre: RecView,
    calls: Seq<PortCall>,
    mid: RecView,
    file: Result<bool, Seq<char>>,
    more: Seq<PortCall>,
    post: RecView,
    out: ResultView,
)
    requires
        exited_run(pre, calls, mid, Some(StepView::CheckOutput)),
        finish_run(mid, file, more, post, out),
    ensures
        !out.ok,
        out.code == MachineCode::IoError,
{
}

/// Stopping two recorders escalates from SIGINT over SIGTERM to SIGKILL; their
/// recordings are looked at exactly if SIGKILL was not needed. Nothing is
/// composed yet and nothing discarded.
pub proof fn both_stop_signals_escalate(
    pre: RecView,
    calls: Seq<PortCall>,
    post: RecView,
    out: StepView,
)
    requires
        pre.state == State::Recording,
        pre.pair is Some,
        stop_run(pre, calls, post, out),
    ensures
        spawns_nothing(calls),
        escalated(post.stop_sent_signals),
        out == StepView::CheckTemps <==> post.stop_sent_signals.len() < 3,
        post.discard == pre.discard,
{
    lemma_both_stop(pre, calls, post, out);
}

/// The message names the two recordings, after a shutdown or where the recorders
/// had to be killed.
pub open spec fn names_recordings(both: BothView, message: Seq<char>) -> bool {
    ||| exists|stderr: Seq<char>| message == #[trigger] quit_message(both, stderr)
    ||| exists|stderr: Seq<char>|
        message == #[trigger] stop_timed_out(Some(both.a + ", "@ + both.b), stderr)
}

/// Shutting down while two monitors are recorded composes nothing: no program is
/// started, no path is put on the clipboard, and the recordings stay. The session
/// is at rest then, with a message that names them as the error to show.
pub proof fn shutdown_composes_nothing(
    pre: RecView,
    calls: Seq<PortCall>,
    post: RecView,
    out: StepView,
)
    requires
        pre.wf(),
        pre.pair is Some,
        shutdown_run(pre, calls, post, out),
    ensures
        spawns_nothing(calls),
        copies_nothing(calls),
        out is Done,
        !out->Done_0.ok,
        post.state == State::Idle,
        post.pair is None,
        post.both is None,
        post.discard == pre.discard,
        post.last_success_path == pre.last_success_path,
        post.last_error == Some(out->Done_0.message),
        names_recordings(pre.both->0, out->Done_0.message),
        escalated(post.stop_sent_signals),
{
    let (k, stopped, asked) = choose|k: int, stopped: RecView, asked: StepView|
        {
            &&& 0 <= k <= calls.len()
            &&& #[trigger] both_stop_run(pre, calls.take(k), stopped, asked)
            &&& both_quit_end(stopped, asked, calls.skip(k), post, out)
        };
    let first = calls.take(k);
    let rest = calls.skip(k);
    lemma_both_stop(pre, first, stopped, asked);
    lemma_quiet(first, rest);
    assert(calls =~= first + rest);
}

/// Where one of two recorders is gone nothing is composed, no path is put on the
/// clipboard, and the recordings stay.
pub proof fn lost_recorder_composes_nothing(
    pre: RecView,
    calls: Seq<PortCall>,
    post: RecView,
    out: StepView,
)
    requires
        pre.state == State::Recording,
        pre.pair is Some,
        poll_run(pre, calls, post, Some(out)),
    ensures
        spawns_nothing(calls),
        copies_nothing(calls),
        out is Done,
        !out->Done_0.ok,
        post.state == State::Idle,
        post.last_success_path == pre.last_success_path,
        post.discard == pre.discard,
{
    let a = calls[0]->TryWait_answer;
    if a == Ok::<Option<ExitStatus>, Seq<char>>(None) {
        let b = calls[1]->TryWait_answer;
        let head = calls.take(2);
        assert(head =~= seq![calls[0], calls[1]]);
        lemma_lost(pre, false, b, calls.skip(2), post, Some(out));
        lemma_quiet(head, calls.skip(2));
        assert(calls =~= head + calls.skip(2));
    } else {
        let head = calls.take(1);
        assert(head =~= seq![calls[0]]);
        lemma_lost(pre, true, a, calls.skip(1), post, Some(out));
        lemma_quiet(head, calls.skip(1));
        assert(calls =~= head + calls.skip(1));
    }
}

/// A video of two monitors is a success exactly if composing went well and it is
/// there and not empty. The recordings are discarded then, and only then.
pub proof fn both_success_needs_video(
    pre: RecView,
    file: Result<bool, Seq<char>>,
    calls: Seq<PortCall>,
    post: RecView,
    out: ResultView,
)
    requires
        pre.pending is BothFinal,
        check_run(pre, file, calls, post, out),
    ensures
        out.ok <==> pre.pending->composed == ExitStatus::Code(0) && file == Ok::<bool, Seq<char>>(
            true,
        ),
        out.ok ==> post.discard == seq![pre.both->0.a, pre.both->0.b] && post.last_success_path
            == Some(pre.output_path->0),
        !out.ok ==> post.discard == pre.discard && post.last_success_path == pre.last_success_path
            && copies_nothing(calls),
        post.state == State::Idle,
{
}

/// Of the recordings of two monitors neither may be missing or empty: else
/// nothing is composed.
pub proof fn composing_needs_both_recordings(
    pre: RecView,
    a: Result<bool, Seq<char>>,
    b: Result<bool, Seq<char>>,
    calls: Seq<PortCall>,
    post: RecView,
    out: StepView,
)
    requires
        pre.pending is BothTemps,
        both_temps_run(pre, a, b, calls, post, out),
        a != Ok::<bool, Seq<char>>(true) || b != Ok::<bool, Seq<char>>(true),
    ensures
        spawns_nothing(calls),
        out is Done,
        !out->Done_0.ok,
        post.state == State::Idle,
        post.discard == pre.discard,
{
}

/// A region that is not selected starts no recorder and leaves the session at
/// rest, with what it remembers unchanged.
pub proof fn cancelled_selection_is_harmless(
    pre: RecView,
    status: ExitStatus,
    calls: Seq<PortCall>,
    post: RecView,
    out: StepView,
)
    requires
        selected_run(pre, status, calls, post, out),
        status != ExitStatus::Code(0),
    ensures
        spawns_nothing(calls),
        post == (RecView { state: State::Idle, selector: None, ..pre }),
        out == StepView::Done(ResultView::cancelled()),
{
}

/// A start that fails leaves the session at rest, with the failure as the error
/// to show.
pub proof fn failed_start_is_at_rest(
    pre: RecView,
    site: SiteView,
    calls: Seq<PortCall>,
    post: RecView,
    r: ResultView,
)
    requires
        pre.wf(),
        pre.state == State::Starting,
        output_run(pre, site, calls, post, StepView::Done(r)),
        !r.ok,
    ensures
        post.state == State::Idle,
        post.recorder is None,
        post.pair is None,
        post.last_error == Some(r.message),
        post.last_success_path == pre.last_success_path,
{
    if pre.pending is BothStart && site.failed is None {
        let time = calls[0]->time;
        let allocated = choose|allocated: Result<BothFiles, PortError>|
            {
                &&& #[trigger] both_allocation(
                    allocated,
                    pre.config.output_dir,
                    time,
                    site.taken,
                )
                &&& both_named_run(
                    pre,
                    allocated,
                    site.cwd,
                    calls.skip(1),
                    post,
                    StepView::Done(r),
                )
            };
        if allocated is Ok {
            let more = calls.skip(1);
            if more[0]->Spawn_failed is None && more[1]->Spawn_failed is None {
                let f = allocated->Ok_0;
                let files = BothView {
                    layout: pre.pending->layout,
                    a: absolute_path(f.a@, site.cwd),
                    b: absolute_path(f.b@, site.cwd),
                };
                let running = pre.recording_both(
                    Pair { a: more[0]->Spawn_who, b: more[1]->Spawn_who },
                    files,
                    absolute_path(f.path@, site.cwd),
                    more[2]->time,
                );
                let looks = more.skip(3).skip(1);
                let a = looks[0]->TryWait_answer;
                if a == Ok::<Option<ExitStatus>, Seq<char>>(None) {
                    lemma_lost(
                        running,
                        false,
                        looks[1]->TryWait_answer,
                        looks.skip(2),
                        post,
                        Some(StepView::Done(r)),
                    );
                } else {
                    lemma_lost(
                        running,
                        true,
                        a,
                        looks.skip(1),
                        post,
                        Some(StepView::Done(r)),
                    );
                }
            }
        }
    }
}

// ---------------------------------------------------------------------------
// What is shown
// ---------------------------------------------------------------------------

/// The clock of `r` was never before the Unix epoch and does not run back.
pub open spec fn steady_clock<S, C, N, Cl>(r: Recorder<S, C, N, Cl>) -> bool where
    S: CommandSpawner,
    C: Clock,
    N: Notifier,
    Cl: Clipboard,
 {
    match r@.started_at {
        Some(t) => 0 <= t.total_nanos() && (forall|now: Timestamp|
            #[trigger] call_ensures(C::now, (&r.clock_port(),), now) ==> t.total_nanos()
                <= now.total_nanos()),
        None => true,
    }
}

/// The milliseconds since `start` at a time that the clock of `r` gives.
pub open spec fn elapsed_since<S, C, N, Cl>(
    r: Recorder<S, C, N, Cl>,
    start: Timestamp,
    millis: u64,
) -> bool where S: CommandSpawner, C: Clock, N: Notifier, Cl: Clipboard {
    exists|now: Timestamp|
        {
            &&& #[trigger] call_ensures(C::now, (&r.clock_port(),), now)
            &&& millis == ((now.total_nanos() - start.total_nanos()) / 1_000_000) as u64
        }
}

/// What a snapshot shows of a recording follows from the state. While a recorder
/// runs, and until the file of its recording was looked at, the snapshot has the
/// path, the start and the time that went by; otherwise it has none of them. The
/// name of an output is there exactly if one or two outputs are captured, and not
/// a region.
pub proof fn status_follows_state<S, C, N, Cl>(r: Recorder<S, C, N, Cl>, s: StatusView) where
    S: CommandSpawner,
    C: Clock,
    N: Notifier,
    Cl: Clipboard,

    requires
        r@.wf(),
        r.is_status(s),
        steady_clock(r),
    ensures
        s.state == r@.state,
        ({
            let active = s.state == State::Recording || s.state == State::Stopping;
            let capturing = active || s.state == State::Starting;
            &&& s.output_path is Some <==> active
            &&& s.output_path == r@.output_path
            &&& s.started_at_unix is Some <==> active
            &&& s.elapsed_ms is Some <==> active
            &&& active ==> elapsed_since(r, r@.started_at->0, s.elapsed_ms->0)
            &&& s.capture_mode is Some <==> capturing
            &&& s.capture_output is Some <==> capturing && r@.capture_mode != Some("region"@)
            &&& s.capture_output == r@.capture_output
        }),
        s.state == State::Recording ==> s.pid is Some,
        s.pid is Some ==> s.state == State::Recording || s.state == State::Stopping,
{
    r.handle_while_recording();
    let (now, pid) = choose|now: Timestamp, pid: Option<u32>|
        {
            &&& s == #[trigger] r@.status_at(now, pid)
            &&& call_ensures(C::now, (&r.clock_port(),), now)
            &&& match r.recorder_handle() {
                Some(c) => pid is Some && call_ensures(
                    <S::Child as ChildHandle>::id,
                    (&c.handle(),),
                    pid->0,
                ),
                None => pid is None,
            }
        };
    assert(call_ensures(C::now, (&r.clock_port(),), now));
}

/// Between commands, with nothing asked of the file system, a session is at rest,
/// selects a region or records; its snapshot names a process, a path and a start
/// exactly while it records.
pub proof fn status_between_commands<S, C, N, Cl>(r: Recorder<S, C, N, Cl>, s: StatusView) where
    S: CommandSpawner,
    C: Clock,
    N: Notifier,
    Cl: Clipboard,

    requires
        r@.wf(),
        r@.pending is Nothing,
        r.is_status(s),
        steady_clock(r),
    ensures
        s.state == State::Idle || s.state == State::SelectingRegion || s.state == State::Recording,
        s.output_path is Some <==> s.state == State::Recording,
        s.pid is Some <==> s.state == State::Recording,
        s.started_at_unix is Some <==> s.state == State::Recording,
        s.elapsed_ms is Some <==> s.state == State::Recording,
        s.state == State::Recording ==> elapsed_since(r, r@.started_at->0, s.elapsed_ms->0),
        s.capture_output is Some <==> s.state == State::Recording && r@.capture_mode != Some(
            "region"@,
        ),
{
    status_follows_state(r, s);
}

/// A recording of one output shows the name that was resolved for it.
pub proof fn fullscreen_shows_resolved_output(
    pre: RecView,
    audio: Option<bool>,
    notify_start: bool,
    output: Option<Seq<char>>,
    fps: Option<u32>,
    live_outputs: Seq<Seq<char>>,
    calls: Seq<PortCall>,
    mid: RecView,
    site: SiteView,
    more: Seq<PortCall>,
    post: RecView,
    out: StepView,
)
    requires
        fullscreen_run(
            pre,
            audio,
            notify_start,
            output,
            fps,
            live_outputs,
            calls,
            mid,
            StepView::PrepareOutput,
        ),
        output_run(mid, site, more, post, out),
        post.state == State::Recording,
    ensures
        ({
            let inventory = match pre.forced_outputs {
                Some(f) => f,
                None => live_outputs,
            };
            let name = resolved_output(output, cleaned(pre.config.fullscreen_output), inventory);
            name is Ok && post.capture_output == Some(name->Ok_0)
        }),
        post.capture_mode == Some("one"@),
{
}

/// A recording of a region shows no output.
pub proof fn region_shows_no_output(
    pre: RecView,
    status: ExitStatus,
    calls: Seq<PortCall>,
    mid: RecView,
    site: SiteView,
    more: Seq<PortCall>,
    post: RecView,
    out: StepView,
)
    requires
        selected_run(pre, status, calls, mid, StepView::PrepareOutput),
        output_run(mid, site, more, post, out),
        post.state == State::Recording,
    ensures
        post.capture_output is None,
        post.capture_mode == Some("region"@),
{
}

/// Neither a stop nor a look at the session puts anything on the clipboard.
pub proof fn stop_and_poll_copy_nothing(
    pre: RecView,
    calls: Seq<PortCall>,
    post: RecView,
    out: StepView,
)
    requires
        stop_run(pre, calls, post, out) || poll_run(pre, calls, post, Some(out)),
    ensures
        copies_nothing(calls),
{
    if stop_run(pre, calls, post, out) {
        match pre.state {
            State::SelectingRegion => {
                lemma_slurp(calls, pre.selector->0);
            },
            State::Recording => {
                if pre.pair is Some {
                    lemma_both_stop(pre, calls, post, out);
                } else {
                    lemma_stop_calls(pre, calls, post, out);
                }
            },
            _ => {},
        }
    } else {
        match pre.state {
            State::SelectingRegion => {
                let rest = calls.skip(1);
                if calls[0]->TryWait_answer is Err {
                    lemma_slurp(rest, pre.selector->0);
                }
                assert forall|i: int| 0 <= i < calls.len() implies !(
                #[trigger] calls[i] is Copy) by {
                    if i >= 1 {
                        assert(calls[i] == rest[i - 1]);
                    }
                }
            },
            State::Recording => {
                if pre.pair is Some {
                    lost_recorder_composes_nothing(pre, calls, post, out);
                } else {
                    let rest = calls.skip(1);
                    if calls[0]->TryWait_answer is Err {
                        lemma_recorder(rest, pre.recorder->0);
                    }
                    assert forall|i: int| 0 <= i < calls.len() implies !(
                    #[trigger] calls[i] is Copy) by {
                        if i >= 1 {
                            assert(calls[i] == rest[i - 1]);
                        }
                    }
                }
            },
            _ => {},
        }
    }
}

} // verus!
