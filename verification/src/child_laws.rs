//! Laws of the children: which of two recorders a call concerns, and that no child
//! is left behind.

use vstd::prelude::*;
use vstd::string::*;

use crate::both::{
    both_failed, both_kill_run, both_named_run, both_poll_run, both_quit_end, both_settled_run,
    both_spawned_run,
    both_stop_run, both_stopped, both_temps_run, both_terminate_run, lost_run, peer_ended, BothView,
};
use crate::dual::{
    both_allocation, end_pair_run, reported, running, signalled, wait_pair_run, BothFiles, Pair,
};
use crate::output::path_allocation;
use crate::ports::{absolute_path, ExitStatus, PortError, Signal};
use crate::reap::{recorder_run, slurp_run};
use crate::session::{
    begin_run, complete_run, exited_run, named_run, output_run, poll_run, region_run, release_run,
    settled_run, shutdown_run, spawned_run, stop_recorder_run, stop_run, told, RecView, SiteView, StepView,
};
use crate::session_laws::{lemma_lost, lemma_recorder, lemma_slurp, spawns_nothing};
use crate::status::{MachineCode, ResultView, State};
use crate::trace::PortCall;

verus! {

/// The session has the child `who`.
pub open spec fn holds(v: RecView, who: int) -> bool {
    ||| v.selector == Some(who)
    ||| v.recorder == Some(who)
    ||| v.pair is Some && (v.pair->0.a == who || v.pair->0.b == who)
}

/// The call reported the exit of `who`.
pub open spec fn exit_seen(call: PortCall, who: int) -> bool {
    match call {
        PortCall::Wait { who: w, answer } => w == who && answer is Ok,
        PortCall::WaitTimeout { who: w, millis: _, answer } => w == who && reported(answer) is Some,
        PortCall::TryWait { who: w, answer } => w == who && reported(answer) is Some,
        _ => false,
    }
}

/// The call killed `who`, or its process group.
pub open spec fn killed(call: PortCall, who: int) -> bool {
    match call {
        PortCall::Signal { who: w, group: _, signal, failed: _ } => w == who && signal
            == Signal::Kill,
        _ => false,
    }
}

/// The child `who` was ended: its exit was seen, or it was killed.
pub open spec fn ended(calls: Seq<PortCall>, who: int) -> bool {
    exists|i: int| 0 <= i < calls.len() && #[trigger] ended_by(calls[i], who)
}

/// The call ended `who`.
pub open spec fn ended_by(call: PortCall, who: int) -> bool {
    exit_seen(call, who) || killed(call, who)
}

/// The process group of `who` was signalled.
pub open spec fn group_signalled(calls: Seq<PortCall>, who: int, signal: Signal) -> bool {
    exists|i: int| 0 <= i < calls.len() && #[trigger] signalled(calls[i], who, signal)
}

proof fn lemma_ended_part(calls: Seq<PortCall>, part: Seq<PortCall>, at: int, who: int)
    requires
        0 <= at,
        at + part.len() <= calls.len(),
        part == calls.subrange(at, at + part.len()),
        ended(part, who),
    ensures
        ended(calls, who),
{
    let i = choose|i: int| 0 <= i < part.len() && #[trigger] ended_by(part[i], who);
    assert(part[i] == calls[at + i]);
    assert(ended_by(calls[at + i], who));
}

proof fn lemma_ended_rest(calls: Seq<PortCall>, at: int, who: int)
    requires
        0 <= at <= calls.len(),
        ended(calls.skip(at), who),
    ensures
        ended(calls, who),
{
    assert(calls.skip(at) =~= calls.subrange(at, at + calls.skip(at).len()));
    lemma_ended_part(calls, calls.skip(at), at, who);
}

proof fn lemma_slurp_ended(calls: Seq<PortCall>, who: int)
    requires
        slurp_run(calls, who),
    ensures
        ended(calls, who),
{
    if calls[1]->WaitTimeout_answer matches Ok(Some(_)) {
        assert(ended_by(calls[1], who));
    } else {
        assert(ended_by(calls[2], who));
    }
}

proof fn lemma_recorder_ended(calls: Seq<PortCall>, who: int)
    requires
        recorder_run(calls, who),
    ensures
        ended(calls, who),
        group_signalled(calls, who, Signal::Interrupt),
{
    assert(signalled(calls[0], who, Signal::Interrupt));
    if calls[1]->WaitTimeout_answer matches Ok(Some(_)) {
        assert(ended_by(calls[1], who));
    } else if calls[3]->WaitTimeout_answer matches Ok(Some(_)) {
        assert(ended_by(calls[3], who));
    } else {
        assert(ended_by(calls[4], who));
    }
}

proof fn lemma_signalled_part(
    calls: Seq<PortCall>,
    part: Seq<PortCall>,
    at: int,
    who: int,
    signal: Signal,
)
    requires
        0 <= at,
        at + part.len() <= calls.len(),
        part == calls.subrange(at, at + part.len()),
        group_signalled(part, who, signal),
    ensures
        group_signalled(calls, who, signal),
{
    let i = choose|i: int| 0 <= i < part.len() && #[trigger] signalled(part[i], who, signal);
    assert(part[i] == calls[at + i]);
    assert(signalled(calls[at + i], who, signal));
}

proof fn lemma_end_pair_ended(calls: Seq<PortCall>, pair: Pair)
    requires
        end_pair_run(calls, pair),
    ensures
        ended(calls, pair.a),
        ended(calls, pair.b),
        group_signalled(calls, pair.a, Signal::Interrupt),
        group_signalled(calls, pair.b, Signal::Interrupt),
{
    let k = choose|k: int|
        {
            &&& 0 <= k <= calls.len()
            &&& #[trigger] recorder_run(calls.take(k), pair.a)
            &&& recorder_run(calls.skip(k), pair.b)
        };
    let first = calls.take(k);
    let second = calls.skip(k);
    lemma_recorder_ended(first, pair.a);
    lemma_recorder_ended(second, pair.b);
    assert(first =~= calls.subrange(0, first.len() as int));
    assert(second =~= calls.subrange(k, k + second.len()));
    lemma_ended_part(calls, first, 0, pair.a);
    lemma_ended_part(calls, second, k, pair.b);
    lemma_signalled_part(calls, first, 0, pair.a, Signal::Interrupt);
    lemma_signalled_part(calls, second, k, pair.b, Signal::Interrupt);
}

// ---------------------------------------------------------------------------
// Stopping
// ---------------------------------------------------------------------------

proof fn lemma_stop_recorder_ended(
    pre: RecView,
    calls: Seq<PortCall>,
    post: RecView,
    out: StepView,
)
    requires
        stop_recorder_run(pre, calls, post, out),
    ensures
        ended(calls, pre.recorder->0),
        group_signalled(calls, pre.recorder->0, Signal::Interrupt),
{
    let who = pre.recorder->0;
    assert(signalled(calls[1], who, Signal::Interrupt));
    if calls[2]->WaitTimeout_answer matches Ok(Some(_)) {
        assert(ended_by(calls[2], who));
    } else {
        let rest = calls.skip(3);
        if rest[1]->WaitTimeout_answer matches Ok(Some(_)) {
            assert(ended_by(rest[1], who));
        } else {
            assert(rest.skip(2)[0] == rest[2]);
            assert(ended_by(rest[2], who));
        }
        lemma_ended_rest(calls, 3, who);
    }
}

proof fn lemma_both_kill_ended(
    pre: RecView,
    a: Option<ExitStatus>,
    b: Option<ExitStatus>,
    calls: Seq<PortCall>,
    post: RecView,
    out: StepView,
)
    requires
        both_kill_run(pre, a, b, calls, post, out),
    ensures
        a is None ==> ended(calls, pre.pair->0.a),
        b is None ==> ended(calls, pre.pair->0.b),
{
    let sent = calls.take(running(a) + running(b));
    if a is None {
        assert(sent[0] == calls[0]);
        assert(ended_by(calls[0], pre.pair->0.a));
    }
    if b is None {
        assert(sent[running(a)] == calls[running(a)]);
        assert(ended_by(calls[running(a)], pre.pair->0.b));
    }
}

proof fn lemma_wait_pair_ended(
    calls: Seq<PortCall>,
    pair: Pair,
    a: Option<ExitStatus>,
    b: Option<ExitStatus>,
    millis: u64,
    a2: Option<ExitStatus>,
    b2: Option<ExitStatus>,
)
    requires
        wait_pair_run(calls, pair, a, b, millis, a2, b2),
    ensures
        a is None && a2 is Some ==> ended(calls, pair.a),
        b is None && b2 is Some ==> ended(calls, pair.b),
        a is Some ==> a2 is Some,
        b is Some ==> b2 is Some,
{
    if a is None && a2 is Some {
        assert(ended_by(calls[1], pair.a));
    }
    if b is None && b2 is Some {
        assert(ended_by(calls[2 + running(a)], pair.b));
    }
}

proof fn lemma_both_terminate_ended(
    pre: RecView,
    a: Option<ExitStatus>,
    b: Option<ExitStatus>,
    calls: Seq<PortCall>,
    post: RecView,
    out: StepView,
)
    requires
        both_terminate_run(pre, a, b, calls, post, out),
    ensures
        a is None ==> ended(calls, pre.pair->0.a),
        b is None ==> ended(calls, pre.pair->0.b),
{
    let n = running(a) + running(b);
    let pair = pre.pair->0;
    let waited = calls.subrange(n, 2 * n + 2);
    let rest = calls.skip(2 * n + 2);
    let asked = RecView {
        stop_sent_signals: seq![Signal::Interrupt, Signal::Terminate],
        ..pre
    };
    let (a2, b2) = choose|a2: Option<ExitStatus>, b2: Option<ExitStatus>|
        {
            &&& #[trigger] wait_pair_run(
                waited,
                pair,
                a,
                b,
                pre.config.stop_term_timeout_ms,
                a2,
                b2,
            )
            &&& if a2 is Some && b2 is Some {
                both_stopped(asked, rest, post, out)
            } else {
                both_kill_run(asked, a2, b2, rest, post, out)
            }
        };
    lemma_wait_pair_ended(waited, pair, a, b, pre.config.stop_term_timeout_ms, a2, b2);
    if !(a2 is Some && b2 is Some) {
        lemma_both_kill_ended(asked, a2, b2, rest, post, out);
    }
    assert(waited =~= calls.subrange(n, n + waited.len()));
    if a is None {
        if a2 is Some {
            lemma_ended_part(calls, waited, n, pair.a);
        } else {
            lemma_ended_rest(calls, 2 * n + 2, pair.a);
        }
    }
    if b is None {
        if b2 is Some {
            lemma_ended_part(calls, waited, n, pair.b);
        } else {
            lemma_ended_rest(calls, 2 * n + 2, pair.b);
        }
    }
}

proof fn lemma_both_stop_ended(pre: RecView, calls: Seq<PortCall>, post: RecView, out: StepView)
    requires
        both_stop_run(pre, calls, post, out),
    ensures
        ended(calls, pre.pair->0.a),
        ended(calls, pre.pair->0.b),
        group_signalled(calls, pre.pair->0.a, Signal::Interrupt),
        group_signalled(calls, pre.pair->0.b, Signal::Interrupt),
{
    let pair = pre.pair->0;
    let sent = calls.subrange(1, 3);
    assert(sent[0] == calls[1] && sent[1] == calls[2]);
    assert(signalled(calls[1], pair.a, Signal::Interrupt));
    assert(signalled(calls[2], pair.b, Signal::Interrupt));
    let waited = calls.subrange(3, 7);
    let rest = calls.skip(7);
    let a = reported(calls[4]->WaitTimeout_answer);
    let b = reported(calls[6]->WaitTimeout_answer);
    let none: Option<ExitStatus> = None;
    lemma_wait_pair_ended(waited, pair, none, none, pre.config.stop_timeout_ms, a, b);
    if !(a is Some && b is Some) {
        let asked = RecView {
            stopping_pid: Some(calls[0]->pid),
            stop_sent_signals: seq![Signal::Interrupt],
            ..pre
        };
        lemma_both_terminate_ended(asked, a, b, rest, post, out);
    }
    assert(waited =~= calls.subrange(3int, 3int + waited.len()));
    if a is Some {
        lemma_ended_part(calls, waited, 3, pair.a);
    } else {
        lemma_ended_rest(calls, 7, pair.a);
    }
    if b is Some {
        lemma_ended_part(calls, waited, 3, pair.b);
    } else {
        lemma_ended_rest(calls, 7, pair.b);
    }
}

/// Stopping two recorders interrupts the process group of each of them.
pub proof fn both_recorders_are_interrupted(
    pre: RecView,
    calls: Seq<PortCall>,
    post: RecView,
    out: StepView,
)
    requires
        pre.state == State::Recording,
        pre.pair is Some,
        stop_run(pre, calls, post, out),
    ensures
        group_signalled(calls, pre.pair->0.a, Signal::Interrupt),
        group_signalled(calls, pre.pair->0.b, Signal::Interrupt),
{
    lemma_both_stop_ended(pre, calls, post, out);
}

/// A stop leaves no child behind: each one that the session had was ended, and
/// the session has none after it.
pub proof fn stop_leaves_no_child(
    pre: RecView,
    calls: Seq<PortCall>,
    post: RecView,
    out: StepView,
    who: int,
)
    requires
        pre.wf(),
        stop_run(pre, calls, post, out),
        holds(pre, who),
    ensures
        ended(calls, who),
        !holds(post, who),
{
    match pre.state {
        State::SelectingRegion => {
            lemma_slurp_ended(calls, who);
        },
        State::Recording => {
            if pre.pair is Some {
                lemma_both_stop_ended(pre, calls, post, out);
                lemma_both_stop_holds(pre, calls, post, out);
            } else {
                lemma_stop_recorder_ended(pre, calls, post, out);
            }
        },
        _ => {},
    }
}

/// A shutdown leaves no child behind either, whether one monitor is recorded or
/// two.
pub proof fn shutdown_leaves_no_child(
    pre: RecView,
    calls: Seq<PortCall>,
    post: RecView,
    out: StepView,
    who: int,
)
    requires
        pre.wf(),
        shutdown_run(pre, calls, post, out),
        holds(pre, who),
    ensures
        ended(calls, who),
        !holds(post, who),
{
    if pre.state == State::Recording && pre.pair is Some {
        let (k, stopped, asked) = choose|k: int, stopped: RecView, asked: StepView|
            {
                &&& 0 <= k <= calls.len()
                &&& #[trigger] both_stop_run(pre, calls.take(k), stopped, asked)
                &&& both_quit_end(stopped, asked, calls.skip(k), post, out)
            };
        let first = calls.take(k);
        lemma_both_stop_ended(pre, first, stopped, asked);
        lemma_both_stop_holds(pre, first, stopped, asked);
        assert(first =~= calls.subrange(0, first.len() as int));
        lemma_ended_part(calls, first, 0, who);
    } else {
        stop_leaves_no_child(pre, calls, post, out, who);
    }
}

proof fn lemma_both_stop_holds(pre: RecView, calls: Seq<PortCall>, post: RecView, out: StepView)
    requires
        both_stop_run(pre, calls, post, out),
    ensures
        post.selector == pre.selector,
        post.recorder is None || post.recorder == pre.recorder,
        post.pair is None,
{
    let a = reported(calls[4]->WaitTimeout_answer);
    let b = reported(calls[6]->WaitTimeout_answer);
    if !(a is Some && b is Some) {
        let rest = calls.skip(7);
        let n = running(a) + running(b);
        assert(exists|a2: Option<ExitStatus>, b2: Option<ExitStatus>|
            #[trigger] wait_pair_run(
                rest.subrange(n, 2 * n + 2),
                pre.pair->0,
                a,
                b,
                pre.config.stop_term_timeout_ms,
                a2,
                b2,
            ));
    }
}

// ---------------------------------------------------------------------------
// Looking
// ---------------------------------------------------------------------------

proof fn lemma_lost_ended(
    pre: RecView,
    primary: bool,
    looked: Result<Option<ExitStatus>, Seq<char>>,
    calls: Seq<PortCall>,
    post: RecView,
    out: Option<StepView>,
)
    requires
        lost_run(pre, primary, looked, calls, post, out),
    ensures
        post == pre.over().with_error(post.last_error->0),
        (looked is Err || !primary) ==> ended(calls, pre.pair->0.a) && group_signalled(
            calls,
            pre.pair->0.a,
            Signal::Interrupt,
        ),
        (looked is Err || primary) ==> ended(calls, pre.pair->0.b) && group_signalled(
            calls,
            pre.pair->0.b,
            Signal::Interrupt,
        ),
{
    let (k, message) = choose|k: int, message: Seq<char>|
        {
            &&& 0 <= k <= calls.len()
            &&& #[trigger] peer_ended(
                pre.both->0,
                pre.pair->0,
                primary,
                looked,
                calls.take(k),
                message,
            )
            &&& told(pre.config.notify, message, calls.skip(k))
            &&& post == pre.over().with_error(message)
            &&& out == Some(StepView::Done(ResultView::failed(MachineCode::IoError, message)))
        };
    let pair = pre.pair->0;
    let first = calls.take(k);
    assert(first =~= calls.subrange(0, first.len() as int));
    match looked {
        Ok(_) => {
            let peer = if primary {
                pair.b
            } else {
                pair.a
            };
            let rest = first.skip(1);
            lemma_recorder_ended(rest, peer);
            assert(rest =~= calls.subrange(1int, 1int + rest.len()));
            lemma_ended_part(calls, rest, 1, peer);
            lemma_signalled_part(calls, rest, 1, peer, Signal::Interrupt);
        },
        Err(_) => {
            lemma_end_pair_ended(first, pair);
            lemma_ended_part(calls, first, 0, pair.a);
            lemma_ended_part(calls, first, 0, pair.b);
            lemma_signalled_part(calls, first, 0, pair.a, Signal::Interrupt);
            lemma_signalled_part(calls, first, 0, pair.b, Signal::Interrupt);
        },
    }
}

proof fn lemma_both_poll_ended(
    pre: RecView,
    calls: Seq<PortCall>,
    post: RecView,
    out: Option<StepView>,
)
    requires
        both_poll_run(pre, calls, post, out),
    ensures
        out is None ==> post == pre,
        out is Some ==> {
            &&& post == pre.over().with_error(post.last_error->0)
            &&& ended(calls, pre.pair->0.a)
            &&& ended(calls, pre.pair->0.b)
            &&& reported(calls[0]->TryWait_answer) is Some || group_signalled(
                calls,
                pre.pair->0.a,
                Signal::Interrupt,
            )
            &&& reported(calls[0]->TryWait_answer) is Some || calls[0]->TryWait_answer is Err
                ==> group_signalled(calls, pre.pair->0.b, Signal::Interrupt)
        },
{
    let pair = pre.pair->0;
    let looked = calls[0]->TryWait_answer;
    if looked == Ok::<Option<ExitStatus>, Seq<char>>(None) {
        let second = calls[1]->TryWait_answer;
        if second != Ok::<Option<ExitStatus>, Seq<char>>(None) {
            let rest = calls.skip(2);
            lemma_lost_ended(pre, false, second, rest, post, out);
            assert(rest =~= calls.subrange(2int, 2int + rest.len()));
            lemma_ended_part(calls, rest, 2, pair.a);
            lemma_signalled_part(calls, rest, 2, pair.a, Signal::Interrupt);
            if second is Err {
                lemma_ended_part(calls, rest, 2, pair.b);
            } else {
                assert(ended_by(calls[1], pair.b));
            }
        }
    } else {
        let rest = calls.skip(1);
        lemma_lost_ended(pre, true, looked, rest, post, out);
        assert(rest =~= calls.subrange(1int, 1int + rest.len()));
        lemma_ended_part(calls, rest, 1, pair.b);
        lemma_signalled_part(calls, rest, 1, pair.b, Signal::Interrupt);
        if looked is Err {
            lemma_ended_part(calls, rest, 1, pair.a);
            lemma_signalled_part(calls, rest, 1, pair.a, Signal::Interrupt);
        } else {
            assert(ended_by(calls[0], pair.a));
        }
    }
}

/// Where one of two recorders is gone its peer is interrupted; where it cannot be
/// told whether the first one is gone, both are.
pub proof fn peer_of_lost_recorder_is_interrupted(
    pre: RecView,
    calls: Seq<PortCall>,
    post: RecView,
    out: StepView,
)
    requires
        pre.state == State::Recording,
        pre.pair is Some,
        poll_run(pre, calls, post, Some(out)),
    ensures
        reported(calls[0]->TryWait_answer) is Some ==> group_signalled(
            calls,
            pre.pair->0.b,
            Signal::Interrupt,
        ),
        reported(calls[0]->TryWait_answer) is None ==> group_signalled(
            calls,
            pre.pair->0.a,
            Signal::Interrupt,
        ),
        calls[0]->TryWait_answer is Err ==> group_signalled(
            calls,
            pre.pair->0.b,
            Signal::Interrupt,
        ),
{
    lemma_both_poll_ended(pre, calls, post, Some(out));
}

proof fn lemma_exited_ended(
    pre: RecView,
    calls: Seq<PortCall>,
    post: RecView,
    out: Option<StepView>,
)
    requires
        pre.recorder is Some,
        exited_run(pre, calls, post, out),
    ensures
        ended(calls, pre.recorder->0) || post.recorder == pre.recorder,
{
    let who = pre.recorder->0;
    if calls[0]->TryWait_answer is Err {
        lemma_recorder_ended(calls.skip(1), who);
        lemma_ended_rest(calls, 1, who);
    } else if reported(calls[0]->TryWait_answer) is Some {
        assert(ended_by(calls[0], who));
    }
}

/// A look at the session leaves no child behind: each one that the session had
/// was ended, or the session has it still.
pub proof fn poll_leaves_no_child(
    pre: RecView,
    calls: Seq<PortCall>,
    post: RecView,
    out: Option<StepView>,
    who: int,
)
    requires
        pre.wf(),
        poll_run(pre, calls, post, out),
        holds(pre, who),
    ensures
        ended(calls, who) || holds(post, who),
{
    match pre.state {
        State::SelectingRegion => {
            if calls[0]->TryWait_answer is Err {
                lemma_slurp_ended(calls.skip(1), who);
                lemma_ended_rest(calls, 1, who);
            } else if reported(calls[0]->TryWait_answer) is Some {
                assert(ended_by(calls[0], who));
            }
        },
        State::Recording => {
            if pre.pair is Some {
                lemma_both_poll_ended(pre, calls, post, out);
            } else {
                lemma_exited_ended(pre, calls, post, out);
            }
        },
        _ => {},
    }
}

/// Releasing a session ends every child that it has.
pub proof fn release_leaves_no_child(pre: RecView, calls: Seq<PortCall>, post: RecView, who: int)
    requires
        pre.wf(),
        release_run(pre, calls, post),
        holds(pre, who),
    ensures
        ended(calls, who),
        !holds(post, who),
{
    match pre.state {
        State::SelectingRegion => {
            lemma_slurp_ended(calls, who);
        },
        State::Recording => {
            if pre.pair is Some {
                lemma_end_pair_ended(calls, pre.pair->0);
            } else {
                lemma_recorder_ended(calls, who);
            }
        },
        _ => {},
    }
}

// ---------------------------------------------------------------------------
// Starting
// ---------------------------------------------------------------------------

/// The call started a child.
pub open spec fn started(call: PortCall) -> bool {
    call is Spawn && call->Spawn_failed is None
}

/// Every child that the calls started was ended, or the session has it.
pub open spec fn none_left(calls: Seq<PortCall>, post: RecView) -> bool {
    forall|i: int|
        0 <= i < calls.len() && #[trigger] started(calls[i]) ==> ended(calls, calls[i]->Spawn_who)
            || holds(post, calls[i]->Spawn_who)
}

proof fn lemma_none_left_rest(calls: Seq<PortCall>, at: int, post: RecView)
    requires
        0 <= at <= calls.len(),
        none_left(calls.skip(at), post),
        spawns_nothing(calls.take(at)),
    ensures
        none_left(calls, post),
{
    let rest = calls.skip(at);
    assert forall|i: int| 0 <= i < calls.len() && #[trigger] started(calls[i]) implies ended(
        calls,
        calls[i]->Spawn_who,
    ) || holds(post, calls[i]->Spawn_who) by {
        if i < at {
            assert(calls.take(at)[i] == calls[i]);
        } else {
            assert(rest[i - at] == calls[i]);
            assert(started(rest[i - at]));
            if ended(rest, calls[i]->Spawn_who) {
                lemma_ended_rest(calls, at, calls[i]->Spawn_who);
            }
        }
    }
}

proof fn lemma_settled(pre: RecView, calls: Seq<PortCall>, post: RecView, out: StepView)
    requires
        pre.recorder is Some,
        settled_run(pre, calls, post, out),
    ensures
        spawns_nothing(calls),
        ended(calls, pre.recorder->0) || post.recorder == pre.recorder,
{
    let who = pre.recorder->0;
    if calls[1]->TryWait_answer != Ok::<Option<ExitStatus>, Seq<char>>(None) {
        let rest = calls.skip(1);
        lemma_exited_ended(pre, rest, post, Some(out));
        if ended(rest, who) {
            lemma_ended_rest(calls, 1, who);
        }
        if rest[0]->TryWait_answer is Err {
            let more = rest.skip(1);
            lemma_recorder(more, who);
            assert forall|i: int| 0 <= i < calls.len() implies !(#[trigger] calls[i] is Spawn) by {
                if i >= 2 {
                    assert(calls[i] == more[i - 2]);
                }
            }
        } else {
            assert(rest[1] == calls[2]);
        }
    }
}

proof fn lemma_spawned(
    pre: RecView,
    path: Seq<char>,
    geometry: Option<Seq<char>>,
    output: Option<Seq<char>>,
    fps: Option<u32>,
    calls: Seq<PortCall>,
    post: RecView,
    out: StepView,
)
    requires
        spawned_run(pre, path, geometry, output, fps, calls, post, out),
    ensures
        none_left(calls, post),
{
    if calls[0]->Spawn_failed is None {
        let who = calls[0]->Spawn_who;
        let rest = calls.skip(2);
        let running = pre.recording_to(who, path, calls[1]->time);
        lemma_settled(running, rest, post, out);
        if ended(rest, who) {
            lemma_ended_rest(calls, 2, who);
        }
        assert forall|i: int| 0 <= i < calls.len() && #[trigger] started(calls[i]) implies i
            == 0 by {
            if i >= 2 {
                assert(calls[i] == rest[i - 2]);
            }
        }
    }
}

proof fn lemma_both_settled(pre: RecView, calls: Seq<PortCall>, post: RecView, out: StepView)
    requires
        pre.pair is Some,
        both_settled_run(pre, calls, post, out),
    ensures
        spawns_nothing(calls),
        ended(calls, pre.pair->0.a) || holds(post, pre.pair->0.a),
        ended(calls, pre.pair->0.b) || holds(post, pre.pair->0.b),
{
    let pair = pre.pair->0;
    if !crate::both::both_alive(calls, pair, 1) {
        let rest = calls.skip(1);
        let none = Ok::<Option<ExitStatus>, Seq<char>>(None);
        lemma_both_poll_ended(pre, rest, post, Some(out));
        lemma_ended_rest(calls, 1, pair.a);
        lemma_ended_rest(calls, 1, pair.b);
        if rest[0]->TryWait_answer == none {
            assert(rest[1] == calls[2]);
            let more = rest.skip(2);
            lemma_lost(pre, false, rest[1]->TryWait_answer, more, post, Some(out));
            assert forall|i: int| 0 <= i < calls.len() implies !(#[trigger] calls[i] is Spawn) by {
                if i >= 3 {
                    assert(calls[i] == more[i - 3]);
                }
            }
        } else {
            let more = rest.skip(1);
            lemma_lost(pre, true, rest[0]->TryWait_answer, more, post, Some(out));
            assert forall|i: int| 0 <= i < calls.len() implies !(#[trigger] calls[i] is Spawn) by {
                if i >= 2 {
                    assert(calls[i] == more[i - 2]);
                }
            }
        }
    }
}

proof fn lemma_both_spawned(
    pre: RecView,
    files: BothView,
    path: Seq<char>,
    calls: Seq<PortCall>,
    post: RecView,
    out: StepView,
)
    requires
        both_spawned_run(pre, files, path, calls, post, out),
    ensures
        none_left(calls, post),
{
    if calls[0]->Spawn_failed is None {
        let a = calls[0]->Spawn_who;
        if calls[1]->Spawn_failed is None {
            let b = calls[1]->Spawn_who;
            let rest = calls.skip(3);
            let running = pre.recording_both(Pair { a, b }, files, path, calls[2]->time);
            lemma_both_settled(running, rest, post, out);
            if ended(rest, a) {
                lemma_ended_rest(calls, 3, a);
            }
            if ended(rest, b) {
                lemma_ended_rest(calls, 3, b);
            }
            assert forall|i: int| 0 <= i < calls.len() && #[trigger] started(calls[i]) implies i
                == 0 || i == 1 by {
                if i >= 3 {
                    assert(calls[i] == rest[i - 3]);
                }
            }
        } else {
            let rest = calls.skip(2);
            lemma_recorder(rest, a);
            lemma_recorder_ended(rest, a);
            lemma_ended_rest(calls, 2, a);
            assert forall|i: int| 0 <= i < calls.len() && #[trigger] started(calls[i]) implies i
                == 0 by {
                if i >= 2 {
                    assert(calls[i] == rest[i - 2]);
                }
            }
        }
    }
}

/// A start leaves no child behind: each one that it started was ended, or the
/// session has it.
pub proof fn start_leaves_no_child(
    pre: RecView,
    site: SiteView,
    calls: Seq<PortCall>,
    post: RecView,
    out: StepView,
)
    requires
        output_run(pre, site, calls, post, out),
    ensures
        none_left(calls, post),
{
    if site.failed is None {
        let time = calls[0]->time;
        let rest = calls.skip(1);
        assert(spawns_nothing(calls.take(1)));
        if pre.pending is BothStart {
            let allocated = choose|allocated: Result<BothFiles, PortError>|
                {
                    &&& #[trigger] both_allocation(
                        allocated,
                        pre.config.output_dir,
                        time,
                        site.taken,
                    )
                    &&& both_named_run(pre, allocated, site.cwd, rest, post, out)
                };
            if allocated is Ok {
                let f = allocated->Ok_0;
                lemma_both_spawned(
                    pre,
                    BothView {
                        layout: pre.pending->layout,
                        a: absolute_path(f.a@, site.cwd),
                        b: absolute_path(f.b@, site.cwd),
                    },
                    absolute_path(f.path@, site.cwd),
                    rest,
                    post,
                    out,
                );
            }
        } else {
            let allocated = choose|allocated: Result<String, PortError>|
                {
                    &&& #[trigger] path_allocation(
                        allocated,
                        pre.config.output_dir,
                        time,
                        site.taken,
                    )
                    &&& named_run(pre, allocated, site.cwd, rest, post, out)
                };
            if allocated is Ok && rest.len() > 0 {
                lemma_spawned(
                    pre,
                    absolute_path(allocated->Ok_0@, site.cwd),
                    pre.pending->geometry,
                    pre.pending->output,
                    pre.pending->fps,
                    rest,
                    post,
                    out,
                );
            }
        }
        lemma_none_left_rest(calls, 1, post);
    }
}

/// The program that composes two recordings is not left behind either.
pub proof fn composing_leaves_no_child(
    pre: RecView,
    a: Result<bool, Seq<char>>,
    b: Result<bool, Seq<char>>,
    calls: Seq<PortCall>,
    post: RecView,
    out: StepView,
)
    requires
        both_temps_run(pre, a, b, calls, post, out),
    ensures
        none_left(calls, post),
{
    if calls.len() >= 2 && started(calls[0]) {
        let who = calls[0]->Spawn_who;
        let answer = calls[1]->Wait_answer;
        if answer is Ok {
            assert(ended_by(calls[1], who));
        } else {
            let rest = calls.skip(2);
            let e = answer->Err_0;
            let k = choose|k: int|
                {
                    &&& 0 <= k <= rest.len()
                    &&& #[trigger] recorder_run(rest.take(k), who)
                    &&& both_failed(
                        pre,
                        MachineCode::IoError,
                        "ffmpeg wait failed: "@ + e + pre.both->0.kept(),
                        rest.skip(k),
                        post,
                        out,
                    )
                };
            let first = rest.take(k);
            lemma_recorder_ended(first, who);
            lemma_recorder(first, who);
            assert(first =~= calls.subrange(2int, 2int + first.len()));
            lemma_ended_part(calls, first, 2, who);
            assert forall|i: int| 0 <= i < calls.len() && #[trigger] started(calls[i]) implies i
                == 0 by {
                if i >= 2 + k {
                    assert(calls[i] == rest.skip(k)[i - 2 - k]);
                } else if i >= 2 {
                    assert(calls[i] == first[i - 2]);
                }
            }
        }
    }
}

/// Selecting a region leaves no child behind: the selector was ended, or the
/// session has it.
pub proof fn region_leaves_no_child(
    pre: RecView,
    audio: Option<bool>,
    notify_start: bool,
    calls: Seq<PortCall>,
    post: RecView,
    out: StepView,
)
    requires
        region_run(pre, audio, notify_start, calls, post, out),
    ensures
        none_left(calls, post),
{
    if exists|between: RecView|
        {
            &&& calls.len() >= 3
            &&& #[trigger] begin_run(pre, audio, notify_start, calls.take(3), between, Ok(()))
            &&& complete_run(between, calls.skip(3), post, out)
        } {
        let between = choose|between: RecView|
            {
                &&& calls.len() >= 3
                &&& #[trigger] begin_run(pre, audio, notify_start, calls.take(3), between, Ok(()))
                &&& complete_run(between, calls.skip(3), post, out)
            };
        let first = calls.take(3);
        let rest = calls.skip(3);
        let who = first[2]->Spawn_who;
        assert(first[2] == calls[2]);
        assert(rest[0] == calls[3]);
        if rest[0]->Wait_answer is Ok {
            assert(ended_by(calls[3], who));
            assert forall|i: int| 0 <= i < calls.len() && #[trigger] started(calls[i]) implies i
                == 2 by {
                if i < 3 {
                    assert(calls[i] == first[i]);
                } else if i > 3 {
                    assert(calls[i] == rest.skip(1)[i - 4]);
                }
            }
        } else {
            let more = rest.skip(1);
            lemma_slurp_ended(more, who);
            lemma_slurp(more, who);
            lemma_ended_rest(rest, 1, who);
            lemma_ended_rest(calls, 3, who);
            assert forall|i: int| 0 <= i < calls.len() && #[trigger] started(calls[i]) implies i
                == 2 by {
                if i < 3 {
                    assert(calls[i] == first[i]);
                } else if i > 3 {
                    assert(calls[i] == more[i - 4]);
                }
            }
        }
    }
}

} // verus!
