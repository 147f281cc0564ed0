//! Ending children for certain: signals of growing force, then a wait.

use vstd::prelude::*;

use crate::ports::{Clipboard, Clock, CommandSpawner, Notifier, Signal};
use crate::trace::{added, answer, grown, lemma_added, lemma_grown, Child, PortCall, Ports};

verus! {

/// How often a child is looked at again when waiting for it fails.
pub const REAP_TRIES: u32 = 50;

/// Looking at the child `who` until it has exited, at most `tries` times and once
/// more; with a pause after each look where a clock is at hand.
pub open spec fn look_run(calls: Seq<PortCall>, who: int, paced: bool, tries: nat) -> bool
    decreases tries,
{
    &&& calls.len() >= 1
    &&& calls[0] is TryWait && calls[0]->TryWait_who == who
    &&& if tries == 0 || calls[0]->TryWait_answer matches Ok(Some(_)) {
        calls.len() == 1
    } else if paced {
        &&& calls.len() >= 2
        &&& calls[1] == (PortCall::Sleep { millis: 10 })
        &&& look_run(calls.skip(2), who, paced, (tries - 1) as nat)
    } else {
        look_run(calls.skip(1), who, paced, (tries - 1) as nat)
    }
}

/// Reaping the child `who` that was killed: a wait, and looking at it where that
/// fails.
pub open spec fn killed_run(calls: Seq<PortCall>, who: int, paced: bool) -> bool {
    &&& calls.len() >= 1
    &&& calls[0] is Wait && calls[0]->Wait_who == who
    &&& if calls[0]->Wait_answer is Ok {
        calls.len() == 1
    } else {
        look_run(calls.skip(1), who, paced, REAP_TRIES as nat)
    }
}

/// Ending the region selector `who`: SIGTERM and half a second, then SIGKILL.
pub open spec fn slurp_run(calls: Seq<PortCall>, who: int) -> bool {
    &&& calls.len() >= 2
    &&& calls[0] matches PortCall::Signal { who: w0, group, signal, failed: _ }
    &&& w0 == who && !group && signal == Signal::Terminate
    &&& calls[1] matches PortCall::WaitTimeout { who: w1, millis, answer: a }
    &&& w1 == who && millis == 500
    &&& if a matches Ok(Some(_)) {
        calls.len() == 2
    } else {
        &&& calls.len() >= 3
        &&& calls[2] matches PortCall::Signal { who: w2, group: g, signal: s, failed: _ }
        &&& w2 == who && !g && s == Signal::Kill
        &&& killed_run(calls.skip(3), who, false)
    }
}

/// One signal to the process group of `who` and a short wait.
pub open spec fn nudge(calls: Seq<PortCall>, who: int, at: int, signal: Signal) -> bool {
    &&& 0 <= at
    &&& calls.len() >= at + 2
    &&& calls[at] matches PortCall::Signal { who: w0, group, signal: s, failed: _ }
    &&& w0 == who && group && s == signal
    &&& calls[at + 1] matches PortCall::WaitTimeout { who: w1, millis, answer: _ }
    &&& w1 == who && millis == 100
}

/// Whether the wait at `at` reported the exit.
pub open spec fn exited_at(calls: Seq<PortCall>, at: int) -> bool {
    calls[at]->WaitTimeout_answer matches Ok(Some(_))
}

/// Ending the recorder group of `who` in haste: SIGINT, SIGTERM, SIGKILL.
pub open spec fn recorder_run(calls: Seq<PortCall>, who: int) -> bool {
    &&& nudge(calls, who, 0, Signal::Interrupt)
    &&& if exited_at(calls, 1) {
        calls.len() == 2
    } else {
        &&& nudge(calls, who, 2, Signal::Terminate)
        &&& if exited_at(calls, 3) {
            calls.len() == 4
        } else {
            &&& calls.len() >= 5
            &&& calls[4] matches PortCall::Signal { who: w4, group, signal, failed: _ }
            &&& w4 == who && group && signal == Signal::Kill
            &&& killed_run(calls.skip(5), who, true)
        }
    }
}

proof fn lemma_look_step(
    prefix: Seq<PortCall>,
    rest: Seq<PortCall>,
    who: int,
    paced: bool,
    tries: nat,
)
    requires
        tries > 0,
        look_run(rest, who, paced, (tries - 1) as nat),
        paced ==> prefix.len() == 2 && prefix[1] == (PortCall::Sleep { millis: 10 }),
        !paced ==> prefix.len() == 1,
        prefix[0] is TryWait && prefix[0]->TryWait_who == who,
        !(prefix[0]->TryWait_answer matches Ok(Some(_))),
    ensures
        look_run(prefix + rest, who, paced, tries),
{
    let all = prefix + rest;
    if paced {
        assert(all.skip(2) =~= rest);
    } else {
        assert(all.skip(1) =~= rest);
    }
    assert(all[0] == prefix[0]);
}

impl<S: CommandSpawner, C: Clock, N: Notifier, Cl: Clipboard> Ports<S, C, N, Cl> {
    fn look_unpaced(&mut self, child: &mut Child<S::Child>, tries: u32)
        ensures
            grown(final(self)@, old(self)@),
            final(self).same_ports(*old(self)),
            final(child).who() == old(child).who(),
            look_run(added(final(self)@, old(self)@), old(child).who(), false, tries as nat),
        decreases tries,
    {
        let ghost start = self@;
        let r = self.try_wait(child);
        let ghost mid = self@;
        let ghost first = seq![PortCall::TryWait { who: child.who(), answer: answer(r) }];
        assert(mid =~= start + first);
        proof {
            lemma_added(mid, start, first);
        }
        if tries == 0 {
            return ;
        }
        if let Ok(Some(_)) = r {
            return ;
        }
        self.look_unpaced(child, tries - 1);
        proof {
            let rest = added(self@, mid);
            lemma_grown(self@, mid);
            lemma_look_step(first, rest, child.who(), false, tries as nat);
            assert(self@ =~= start + (first + rest));
            lemma_added(self@, start, first + rest);
        }
    }

    fn look_paced(&mut self, child: &mut Child<S::Child>, tries: u32)
        ensures
            grown(final(self)@, old(self)@),
            final(self).same_ports(*old(self)),
            final(child).who() == old(child).who(),
            look_run(added(final(self)@, old(self)@), old(child).who(), true, tries as nat),
        decreases tries,
    {
        let ghost start = self@;
        let r = self.try_wait(child);
        let ghost first = seq![PortCall::TryWait { who: child.who(), answer: answer(r) }];
        proof {
            assert(self@ =~= start + first);
            lemma_added(self@, start, first);
        }
        if tries == 0 {
            return ;
        }
        if let Ok(Some(_)) = r {
            return ;
        }
        self.sleep(10);
        let ghost mid = self@;
        let ghost prefix = first.push(PortCall::Sleep { millis: 10 });
        assert(mid =~= start + prefix);
        self.look_paced(child, tries - 1);
        proof {
            let rest = added(self@, mid);
            lemma_grown(self@, mid);
            lemma_look_step(prefix, rest, child.who(), true, tries as nat);
            assert(self@ =~= start + (prefix + rest));
            lemma_added(self@, start, prefix + rest);
        }
    }

    fn reap_killed_unpaced(&mut self, child: &mut Child<S::Child>)
        ensures
            grown(final(self)@, old(self)@),
            final(self).same_ports(*old(self)),
            final(child).who() == old(child).who(),
            killed_run(added(final(self)@, old(self)@), old(child).who(), false),
    {
        let ghost start = self@;
        let r = self.wait(child);
        let ghost first = seq![PortCall::Wait { who: child.who(), answer: answer(r) }];
        let ghost mid = self@;
        proof {
            assert(mid =~= start + first);
            lemma_added(mid, start, first);
        }
        if r.is_err() {
            self.look_unpaced(child, REAP_TRIES);
            proof {
                let rest = added(self@, mid);
                lemma_grown(self@, mid);
                assert(self@ =~= start + (first + rest));
                assert((first + rest).skip(1) =~= rest);
                lemma_added(self@, start, first + rest);
            }
        }
    }

    /// Reap a child that was killed.
    pub(crate) fn force_reap_after_kill(&mut self, child: &mut Child<S::Child>)
        ensures
            grown(final(self)@, old(self)@),
            final(self).same_ports(*old(self)),
            final(child).who() == old(child).who(),
            killed_run(added(final(self)@, old(self)@), old(child).who(), true),
    {
        let ghost start = self@;
        let r = self.wait(child);
        let ghost first = seq![PortCall::Wait { who: child.who(), answer: answer(r) }];
        let ghost mid = self@;
        proof {
            assert(mid =~= start + first);
            lemma_added(mid, start, first);
        }
        if r.is_err() {
            self.look_paced(child, REAP_TRIES);
            proof {
                let rest = added(self@, mid);
                lemma_grown(self@, mid);
                assert(self@ =~= start + (first + rest));
                assert((first + rest).skip(1) =~= rest);
                lemma_added(self@, start, first + rest);
            }
        }
    }

    /// End the region selector.
    pub(crate) fn force_reap_slurp(&mut self, child: &mut Child<S::Child>)
        ensures
            grown(final(self)@, old(self)@),
            final(self).same_ports(*old(self)),
            final(child).who() == old(child).who(),
            slurp_run(added(final(self)@, old(self)@), old(child).who()),
    {
        let ghost start = self@;
        let _ = self.signal_child(child, Signal::Terminate);
        let waited = self.wait_timeout(child, 500);
        proof {
            assert(self@ =~= start + self@.skip(start.len() as int));
            lemma_added(self@, start, self@.skip(start.len() as int));
        }
        if let Ok(Some(_)) = waited {
            return ;
        }
        let _ = self.signal_child(child, Signal::Kill);
        let ghost mid = self@;
        self.reap_killed_unpaced(child);
        proof {
            let rest = added(self@, mid);
            lemma_grown(self@, mid);
            let prefix = mid.skip(start.len() as int);
            assert(self@ =~= start + (prefix + rest));
            lemma_added(self@, start, prefix + rest);
            assert((prefix + rest).skip(3) =~= rest);
        }
    }

    /// End a recorder process group in haste.
    pub(crate) fn force_reap_recorder(&mut self, child: &mut Child<S::Child>)
        ensures
            grown(final(self)@, old(self)@),
            final(self).same_ports(*old(self)),
            final(child).who() == old(child).who(),
            recorder_run(added(final(self)@, old(self)@), old(child).who()),
    {
        let ghost start = self@;
        let _ = self.signal_group(child, Signal::Interrupt);
        let first = self.wait_timeout(child, 100);
        proof {
            assert(self@ =~= start + self@.skip(start.len() as int));
            lemma_added(self@, start, self@.skip(start.len() as int));
        }
        if let Ok(Some(_)) = first {
            return ;
        }
        let _ = self.signal_group(child, Signal::Terminate);
        let second = self.wait_timeout(child, 100);
        proof {
            assert(self@ =~= start + self@.skip(start.len() as int));
            lemma_added(self@, start, self@.skip(start.len() as int));
        }
        if let Ok(Some(_)) = second {
            return ;
        }
        let _ = self.signal_group(child, Signal::Kill);
        let ghost mid = self@;
        self.force_reap_after_kill(child);
        proof {
            let rest = added(self@, mid);
            lemma_grown(self@, mid);
            let prefix = mid.skip(start.len() as int);
            assert(self@ =~= start + (prefix + rest));
            lemma_added(self@, start, prefix + rest);
            assert((prefix + rest).skip(5) =~= rest);
        }
    }
}

} // verus!
