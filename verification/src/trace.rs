//! The ports of a session and the history of the calls made to them: what was
//! asked of the outside, and what came back.
//!
//! This module is the only way to a port or to a child. Each function that calls
//! one adds the call to the history, with the child that it concerns; only looking
//! at a port, at the time or at a process id leaves no entry.

use vstd::prelude::*;
use vstd::string::*;

use crate::ports::{
    ChildHandle, Clipboard, Clock, CommandSpawner, ExitStatus, Notifier, PortError, Signal,
    SpawnOpts, Timestamp,
};
use crate::text::views;

verus! {

/// One call to a port, with its answer. A failure is kept as its message.
#[verifier::ext_equal]
pub enum PortCall {
    /// Is a program there?
    Probe { binary: Seq<char>, found: bool },
    /// Start a child, which `who` stands for from now on: the place of this call in
    /// the history.
    Spawn { who: int, argv: Seq<Seq<char>>, new_group: bool, failed: Option<Seq<char>> },
    /// Ask for a child's process id.
    Id { who: int, pid: u32 },
    /// Signal a child, or its process group.
    Signal { who: int, group: bool, signal: Signal, failed: Option<Seq<char>> },
    /// Wait for a child's exit.
    Wait { who: int, answer: Result<ExitStatus, Seq<char>> },
    /// Wait for a child's exit for a limited time.
    WaitTimeout { who: int, millis: u64, answer: Result<Option<ExitStatus>, Seq<char>> },
    /// Look whether a child has exited.
    TryWait { who: int, answer: Result<Option<ExitStatus>, Seq<char>> },
    /// Take what a child wrote to stdout.
    Stdout { who: int, text: Seq<char> },
    /// Take the end of what a child wrote to stderr.
    Stderr { who: int, text: Seq<char> },
    /// Read the clock.
    Now { time: Timestamp },
    /// Pause.
    Sleep { millis: u64 },
    /// Show a notification.
    Notify { title: Seq<char>, body: Seq<char>, failed: Option<Seq<char>> },
    /// Put text on the clipboard.
    Copy { text: Seq<char>, failed: Option<Seq<char>> },
    /// The spawner is lent out, to be set up or read.
    Lend,
}

/// The four ports of a session, with the calls made to them so far.
pub struct Ports<S, C, N, Cl> {
    spawner: S,
    clock: C,
    notifier: N,
    clipboard: Cl,
    calls: Ghost<Seq<PortCall>>,
}

/// A child that was started, and the place of its start in the history.
pub struct Child<H> {
    handle: H,
    who: Ghost<int>,
}

impl<H> Child<H> {
    /// The child itself.
    pub closed spec fn handle(&self) -> H {
        self.handle
    }

    /// The place of the child's start in the history.
    pub closed spec fn who(&self) -> int {
        self.who@
    }
}

/// A call at place `at` of the history: a child gets its name from there.
spec fn placed(call: PortCall, at: int) -> PortCall {
    match call {
        PortCall::Spawn { who: _, argv, new_group, failed } => PortCall::Spawn {
            who: at,
            argv,
            new_group,
            failed,
        },
        c => c,
    }
}

spec fn history(calls: Seq<PortCall>) -> Seq<PortCall> {
    Seq::new(calls.len(), |i: int| placed(calls[i], i))
}

impl<S, C, N, Cl> View for Ports<S, C, N, Cl> {
    type V = Seq<PortCall>;

    closed spec fn view(&self) -> Seq<PortCall> {
        history(self.calls@)
    }
}

/// Every child in the history is named by the place of its start.
pub open spec fn starts_named(calls: Seq<PortCall>) -> bool {
    forall|i: int|
        0 <= i < calls.len() && #[trigger] calls[i] is Spawn ==> calls[i]->Spawn_who == i
}

/// `now` is `before` with calls added at its end.
pub open spec fn grown(now: Seq<PortCall>, before: Seq<PortCall>) -> bool {
    before.len() <= now.len() && now.take(before.len() as int) == before
}

/// The calls of `now` that came after `before`.
pub open spec fn added(now: Seq<PortCall>, before: Seq<PortCall>) -> Seq<PortCall> {
    now.skip(before.len() as int)
}

/// A history that `calls` were added to.
pub proof fn lemma_added(now: Seq<PortCall>, before: Seq<PortCall>, calls: Seq<PortCall>)
    requires
        now == before + calls,
    ensures
        grown(now, before),
        added(now, before) == calls,
{
    assert(now.take(before.len() as int) =~= before);
    assert(now.skip(before.len() as int) =~= calls);
}

/// A history that grew is what it was and the calls added.
pub proof fn lemma_grown(now: Seq<PortCall>, before: Seq<PortCall>)
    requires
        grown(now, before),
    ensures
        now == before + added(now, before),
{
    assert(now =~= now.take(before.len() as int) + now.skip(before.len() as int));
}

/// The message of a call that failed.
pub open spec fn failure<T>(r: Result<T, PortError>) -> Option<Seq<char>> {
    match r {
        Ok(_) => None,
        Err(e) => Some(e.text()),
    }
}

/// An answer with its failure as a message.
pub open spec fn answer<T>(r: Result<T, PortError>) -> Result<T, Seq<char>> {
    match r {
        Ok(v) => Ok(v),
        Err(e) => Err(e.text()),
    }
}

impl<S, C, N, Cl> Ports<S, C, N, Cl> {
    /// The spawner.
    pub closed spec fn spawner(&self) -> S {
        self.spawner
    }

    /// The clock.
    pub closed spec fn clock(&self) -> C {
        self.clock
    }

    /// The notifier.
    pub closed spec fn notifier(&self) -> N {
        self.notifier
    }

    /// The clipboard.
    pub closed spec fn clipboard(&self) -> Cl {
        self.clipboard
    }

    /// Nothing was done to a port itself.
    pub open spec fn same_ports(self, before: Self) -> bool {
        &&& self.spawner() == before.spawner()
        &&& self.clock() == before.clock()
        &&& self.notifier() == before.notifier()
        &&& self.clipboard() == before.clipboard()
    }

    /// Every child in a history is named by the place of its start, so no two have
    /// the same name.
    pub proof fn lemma_starts_named(&self)
        ensures
            starts_named(self@),
    {
    }

    fn note(&mut self, Ghost(call): Ghost<PortCall>)
        requires
            call is Spawn ==> call->Spawn_who == old(self)@.len(),
        ensures
            final(self)@ == old(self)@.push(call),
            final(self).same_ports(*old(self)),
    {
        let ghost before = self.calls@;
        self.calls = Ghost(before.push(call));
        assert(history(before.push(call)) =~= history(before).push(call));
    }
}

impl<S: CommandSpawner, C: Clock, N: Notifier, Cl: Clipboard> Ports<S, C, N, Cl> {
    /// Ports to which no call was made yet.
    pub(crate) fn new(spawner: S, clock: C, notifier: N, clipboard: Cl) -> (r: Self)
        ensures
            r@ == Seq::<PortCall>::empty(),
            r.spawner() == spawner,
            r.clock() == clock,
            r.notifier() == notifier,
            r.clipboard() == clipboard,
    {
        let r = Ports { spawner, clock, notifier, clipboard, calls: Ghost(Seq::empty()) };
        assert(r@ =~= Seq::<PortCall>::empty());
        r
    }

    /// The spawner, to be looked at.
    pub(crate) fn see_spawner(&self) -> (r: &S)
        ensures
            *r == self.spawner(),
    {
        &self.spawner
    }

    /// The notifier, to be looked at.
    pub(crate) fn see_notifier(&self) -> (r: &N)
        ensures
            *r == self.notifier(),
    {
        &self.notifier
    }

    /// The clipboard, to be looked at.
    pub(crate) fn see_clipboard(&self) -> (r: &Cl)
        ensures
            *r == self.clipboard(),
    {
        &self.clipboard
    }

    /// The time, read without an entry in the history.
    pub(crate) fn see_time(&self) -> (r: Timestamp)
        ensures
            call_ensures(C::now, (&self.clock(),), r),
    {
        self.clock.now()
    }

    /// The spawner, to be changed by whoever asked for it.
    pub(crate) fn lend_spawner(&mut self) -> (r: &mut S)
        ensures
            *r == old(self).spawner(),
            *final(r) == final(self).spawner(),
            final(self)@ == old(self)@.push(PortCall::Lend),
            final(self).clock() == old(self).clock(),
            final(self).notifier() == old(self).notifier(),
            final(self).clipboard() == old(self).clipboard(),
    {
        self.note(Ghost(PortCall::Lend));
        &mut self.spawner
    }

    pub(crate) fn probe(&mut self, binary: &str) -> (r: bool)
        ensures
            final(self)@ == old(self)@.push(PortCall::Probe { binary: binary@, found: r }),
            final(self).same_ports(*old(self)),
            call_ensures(S::command_exists, (&old(self).spawner(), binary), r),
    {
        let r = self.spawner.command_exists(binary);
        self.note(Ghost(PortCall::Probe { binary: binary@, found: r }));
        r
    }

    pub(crate) fn spawn(&mut self, argv: &Vec<String>, opts: SpawnOpts) -> (r: Result<
        Child<S::Child>,
        PortError,
    >)
        ensures
            final(self)@ == old(self)@.push(
                PortCall::Spawn {
                    who: old(self)@.len() as int,
                    argv: views(argv@),
                    new_group: opts.new_process_group,
                    failed: failure(r),
                },
            ),
            r is Ok ==> r->Ok_0.who() == old(self)@.len(),
            final(self).clock() == old(self).clock(),
            final(self).notifier() == old(self).notifier(),
            final(self).clipboard() == old(self).clipboard(),
            exists|s: &mut S, started: Result<S::Child, PortError>|
                {
                    &&& *s == old(self).spawner()
                    &&& *final(s) == final(self).spawner()
                    &&& #[trigger] call_ensures(S::spawn, (s, argv, opts), started)
                    &&& match started {
                        Ok(h) => r is Ok && r->Ok_0.handle() == h,
                        Err(e) => r == Err::<Child<S::Child>, PortError>(e),
                    }
                },
    {
        let s = &mut self.spawner;
        let started = s.spawn(argv, opts);
        let ghost at = self@.len() as int;
        self.note(
            Ghost(
                PortCall::Spawn {
                    who: at,
                    argv: views(argv@),
                    new_group: opts.new_process_group,
                    failed: failure(started),
                },
            ),
        );
        match started {
            Ok(handle) => Ok(Child { handle, who: Ghost(at) }),
            Err(e) => Err(e),
        }
    }

    pub(crate) fn child_id(&mut self, child: &Child<S::Child>) -> (r: u32)
        ensures
            final(self)@ == old(self)@.push(PortCall::Id { who: child.who(), pid: r }),
            final(self).same_ports(*old(self)),
            call_ensures(<S::Child as ChildHandle>::id, (&child.handle(),), r),
    {
        let r: u32 = child.handle.id();
        self.note(Ghost(PortCall::Id { who: child.who(), pid: r }));
        r
    }

    pub(crate) fn signal_child(&mut self, child: &mut Child<S::Child>, signal: Signal) -> (r:
        Result<(), PortError>)
        ensures
            final(self)@ == old(self)@.push(
                PortCall::Signal { who: old(child).who(), group: false, signal, failed: failure(r) },
            ),
            final(self).same_ports(*old(self)),
            final(child).who() == old(child).who(),
            exists|c: &mut S::Child|
                #![auto]
                *c == old(child).handle() && *final(c) == final(child).handle() && call_ensures(
                    <S::Child as ChildHandle>::signal,
                    (c, signal),
                    r,
                ),
    {
        let h = &mut child.handle;
        let r = h.signal(signal);
        self.note(
            Ghost(PortCall::Signal { who: child.who(), group: false, signal, failed: failure(r) }),
        );
        r
    }

    pub(crate) fn signal_group(&mut self, child: &mut Child<S::Child>, signal: Signal) -> (r:
        Result<(), PortError>)
        ensures
            final(self)@ == old(self)@.push(
                PortCall::Signal { who: old(child).who(), group: true, signal, failed: failure(r) },
            ),
            final(self).same_ports(*old(self)),
            final(child).who() == old(child).who(),
            exists|c: &mut S::Child|
                #![auto]
                *c == old(child).handle() && *final(c) == final(child).handle() && call_ensures(
                    <S::Child as ChildHandle>::signal_group,
                    (c, signal),
                    r,
                ),
    {
        let h = &mut child.handle;
        let r = h.signal_group(signal);
        self.note(
            Ghost(PortCall::Signal { who: child.who(), group: true, signal, failed: failure(r) }),
        );
        r
    }

    pub(crate) fn try_wait(&mut self, child: &mut Child<S::Child>) -> (r:
        Result<Option<ExitStatus>, PortError>)
        ensures
            final(self)@ == old(self)@.push(
                PortCall::TryWait { who: old(child).who(), answer: answer(r) },
            ),
            final(self).same_ports(*old(self)),
            final(child).who() == old(child).who(),
            exists|c: &mut S::Child|
                #![auto]
                *c == old(child).handle() && *final(c) == final(child).handle() && call_ensures(
                    <S::Child as ChildHandle>::try_wait,
                    (c,),
                    r,
                ),
    {
        let h = &mut child.handle;
        let r = h.try_wait();
        self.note(Ghost(PortCall::TryWait { who: child.who(), answer: answer(r) }));
        r
    }

    pub(crate) fn wait(&mut self, child: &mut Child<S::Child>) -> (r: Result<ExitStatus, PortError>)
        ensures
            final(self)@ == old(self)@.push(
                PortCall::Wait { who: old(child).who(), answer: answer(r) },
            ),
            final(self).same_ports(*old(self)),
            final(child).who() == old(child).who(),
            exists|c: &mut S::Child|
                #![auto]
                *c == old(child).handle() && *final(c) == final(child).handle() && call_ensures(
                    <S::Child as ChildHandle>::wait,
                    (c,),
                    r,
                ),
    {
        let h = &mut child.handle;
        let r = h.wait();
        self.note(Ghost(PortCall::Wait { who: child.who(), answer: answer(r) }));
        r
    }

    pub(crate) fn wait_timeout(&mut self, child: &mut Child<S::Child>, millis: u64) -> (r:
        Result<Option<ExitStatus>, PortError>)
        ensures
            final(self)@ == old(self)@.push(
                PortCall::WaitTimeout { who: old(child).who(), millis, answer: answer(r) },
            ),
            final(self).same_ports(*old(self)),
            final(child).who() == old(child).who(),
            exists|c: &mut S::Child|
                #![auto]
                *c == old(child).handle() && *final(c) == final(child).handle() && call_ensures(
                    <S::Child as ChildHandle>::wait_timeout,
                    (c, millis),
                    r,
                ),
    {
        let h = &mut child.handle;
        let r = h.wait_timeout(millis);
        self.note(Ghost(PortCall::WaitTimeout { who: child.who(), millis, answer: answer(r) }));
        r
    }

    pub(crate) fn take_stdout(&mut self, child: &mut Child<S::Child>) -> (r: String)
        ensures
            final(self)@ == old(self)@.push(
                PortCall::Stdout { who: old(child).who(), text: r@ },
            ),
            final(self).same_ports(*old(self)),
            final(child).who() == old(child).who(),
            exists|c: &mut S::Child|
                #![auto]
                *c == old(child).handle() && *final(c) == final(child).handle() && call_ensures(
                    <S::Child as ChildHandle>::take_stdout,
                    (c,),
                    r,
                ),
    {
        let h = &mut child.handle;
        let r = h.take_stdout();
        self.note(Ghost(PortCall::Stdout { who: child.who(), text: r@ }));
        r
    }

    pub(crate) fn take_stderr_tail(&mut self, child: &mut Child<S::Child>) -> (r: String)
        ensures
            final(self)@ == old(self)@.push(
                PortCall::Stderr { who: old(child).who(), text: r@ },
            ),
            final(self).same_ports(*old(self)),
            final(child).who() == old(child).who(),
            exists|c: &mut S::Child|
                #![auto]
                *c == old(child).handle() && *final(c) == final(child).handle() && call_ensures(
                    <S::Child as ChildHandle>::take_stderr_tail,
                    (c,),
                    r,
                ),
    {
        let h = &mut child.handle;
        let r = h.take_stderr_tail();
        self.note(Ghost(PortCall::Stderr { who: child.who(), text: r@ }));
        r
    }

    pub(crate) fn now(&mut self) -> (r: Timestamp)
        ensures
            final(self)@ == old(self)@.push(PortCall::Now { time: r }),
            final(self).same_ports(*old(self)),
            call_ensures(C::now, (&old(self).clock(),), r),
    {
        let r = self.clock.now();
        self.note(Ghost(PortCall::Now { time: r }));
        r
    }

    pub(crate) fn sleep(&mut self, millis: u64)
        ensures
            final(self)@ == old(self)@.push(PortCall::Sleep { millis }),
            final(self).same_ports(*old(self)),
            call_ensures(C::sleep, (&old(self).clock(), millis), ()),
    {
        self.clock.sleep(millis);
        self.note(Ghost(PortCall::Sleep { millis }));
    }

    pub(crate) fn notify(&mut self, title: &str, body: &str) -> (r: Result<(), PortError>)
        ensures
            final(self)@ == old(self)@.push(
                PortCall::Notify { title: title@, body: body@, failed: failure(r) },
            ),
            final(self).spawner() == old(self).spawner(),
            final(self).clock() == old(self).clock(),
            final(self).clipboard() == old(self).clipboard(),
            exists|n: &mut N|
                #![auto]
                *n == old(self).notifier() && *final(n) == final(self).notifier() && call_ensures(
                    N::notify,
                    (n, title, body),
                    r,
                ),
    {
        let n = &mut self.notifier;
        let r = n.notify(title, body);
        self.note(Ghost(PortCall::Notify { title: title@, body: body@, failed: failure(r) }));
        r
    }

    pub(crate) fn copy_text(&mut self, text: &str) -> (r: Result<(), PortError>)
        ensures
            final(self)@ == old(self)@.push(PortCall::Copy { text: text@, failed: failure(r) }),
            final(self).spawner() == old(self).spawner(),
            final(self).clock() == old(self).clock(),
            final(self).notifier() == old(self).notifier(),
            exists|c: &mut Cl|
                #![auto]
                *c == old(self).clipboard() && *final(c) == final(self).clipboard() && call_ensures(
                    Cl::copy_text,
                    (c, text),
                    r,
                ),
    {
        let c = &mut self.clipboard;
        let r = c.copy_text(text);
        self.note(Ghost(PortCall::Copy { text: text@, failed: failure(r) }));
        r
    }
}

impl<H: ChildHandle> Child<H> {
    /// The child's process id, read without an entry in the history.
    pub(crate) fn see_id(&self) -> (r: u32)
        ensures
            call_ensures(H::id, (&self.handle(),), r),
    {
        self.handle.id()
    }
}

} // verus!
