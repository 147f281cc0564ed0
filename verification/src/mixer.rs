//! The sound server behind a history of the calls made to it.
//!
//! This module is the only way to the server: each call here is made once and
//! added to the history with its answer.

use vstd::prelude::*;

use crate::audio::{AudioError, AudioErrorView, AudioInventory, InventoryView};

verus! {

/// Minimal control surface of the sound server.
pub trait PulseCtl {
    fn command_exists(&self, binary: &str) -> bool;

    fn default_sink(&mut self) -> Result<String, AudioError>;

    fn default_source(&mut self) -> Result<String, AudioError>;

    fn list_inventory(&mut self) -> Result<AudioInventory, AudioError>;

    fn load_module(&mut self, name: &str, args: &str) -> Result<u32, AudioError>;

    fn unload_module(&mut self, id: u32) -> Result<(), AudioError>;

    fn move_sink_input(&mut self, index: u32, sink: &str) -> Result<(), AudioError>;
}

/// Something asked of the sound server.
#[verifier::ext_equal]
pub enum PulseStep {
    Probe(Seq<char>),
    Inventory,
    DefaultSink,
    DefaultSource,
    Load { module: Seq<char>, args: Seq<char> },
    Unload(u32),
    Move { index: u32, sink: Seq<char> },
}

/// What the sound server answered.
#[verifier::ext_equal]
pub enum PulseReply {
    Found(bool),
    Listed(InventoryView),
    Name(Seq<char>),
    Loaded(u32),
    Done,
    Failed(AudioErrorView),
}

/// One call: what was asked, and the answer.
#[verifier::ext_equal]
pub struct PulseCall {
    pub step: PulseStep,
    pub reply: PulseReply,
}

/// A sound server together with the history of the calls made to it.
pub struct Pulse<P> {
    port: P,
    history: Ghost<Seq<PulseCall>>,
}

/// The reply to a call that returns a name.
pub open spec fn name_reply(r: Result<String, AudioError>) -> PulseReply {
    match r {
        Ok(s) => PulseReply::Name(s@),
        Err(e) => PulseReply::Failed(e@),
    }
}

/// The reply to a call that returns nothing.
pub open spec fn done_reply(r: Result<(), AudioError>) -> PulseReply {
    match r {
        Ok(_) => PulseReply::Done,
        Err(e) => PulseReply::Failed(e@),
    }
}

/// The reply to a call that loads a module.
pub open spec fn load_reply(r: Result<u32, AudioError>) -> PulseReply {
    match r {
        Ok(id) => PulseReply::Loaded(id),
        Err(e) => PulseReply::Failed(e@),
    }
}

/// The reply to a call that lists the inventory.
pub open spec fn inventory_reply(r: Result<AudioInventory, AudioError>) -> PulseReply {
    match r {
        Ok(inv) => PulseReply::Listed(inv@),
        Err(e) => PulseReply::Failed(e@),
    }
}

impl<P: PulseCtl> Pulse<P> {
    /// The calls made so far.
    pub closed spec fn calls(&self) -> Seq<PulseCall> {
        self.history@
    }

    /// The sound server itself.
    pub closed spec fn server(&self) -> P {
        self.port
    }

    /// A server to which no call was made yet.
    pub fn new(port: P) -> (r: Self)
        ensures
            r.calls() == Seq::<PulseCall>::empty(),
            r.server() == port,
    {
        Pulse { port, history: Ghost(Seq::empty()) }
    }

    /// The server behind the history.
    pub fn port(&self) -> (r: &P)
        ensures
            *r == self.server(),
    {
        &self.port
    }

    pub(crate) fn command_exists(&mut self, binary: &str) -> (r: bool)
        ensures
            final(self).calls() == old(self).calls().push(
                PulseCall { step: PulseStep::Probe(binary@), reply: PulseReply::Found(r) },
            ),
            final(self).server() == old(self).server(),
            call_ensures(P::command_exists, (&old(self).server(), binary), r),
    {
        let r = self.port.command_exists(binary);
        self.history = Ghost(
            self.history@.push(
                PulseCall { step: PulseStep::Probe(binary@), reply: PulseReply::Found(r) },
            ),
        );
        r
    }

    pub(crate) fn default_sink(&mut self) -> (r: Result<String, AudioError>)
        ensures
            final(self).calls() == old(self).calls().push(
                PulseCall { step: PulseStep::DefaultSink, reply: name_reply(r) },
            ),
            exists|p: &mut P|
                #![auto]
                *p == old(self).server() && *final(p) == final(self).server() && call_ensures(
                    P::default_sink,
                    (p,),
                    r,
                ),
    {
        let p = &mut self.port;
        let r = p.default_sink();
        self.history = Ghost(
            self.history@.push(PulseCall { step: PulseStep::DefaultSink, reply: name_reply(r) }),
        );
        r
    }

    pub(crate) fn default_source(&mut self) -> (r: Result<String, AudioError>)
        ensures
            final(self).calls() == old(self).calls().push(
                PulseCall { step: PulseStep::DefaultSource, reply: name_reply(r) },
            ),
            exists|p: &mut P|
                #![auto]
                *p == old(self).server() && *final(p) == final(self).server() && call_ensures(
                    P::default_source,
                    (p,),
                    r,
                ),
    {
        let p = &mut self.port;
        let r = p.default_source();
        self.history = Ghost(
            self.history@.push(PulseCall { step: PulseStep::DefaultSource, reply: name_reply(r) }),
        );
        r
    }

    pub(crate) fn list_inventory(&mut self) -> (r: Result<AudioInventory, AudioError>)
        ensures
            final(self).calls() == old(self).calls().push(
                PulseCall { step: PulseStep::Inventory, reply: inventory_reply(r) },
            ),
            exists|p: &mut P|
                #![auto]
                *p == old(self).server() && *final(p) == final(self).server() && call_ensures(
                    P::list_inventory,
                    (p,),
                    r,
                ),
    {
        let p = &mut self.port;
        let r = p.list_inventory();
        self.history = Ghost(
            self.history@.push(PulseCall { step: PulseStep::Inventory, reply: inventory_reply(r) }),
        );
        r
    }

    pub(crate) fn load_module(&mut self, name: &str, args: &str) -> (r: Result<u32, AudioError>)
        ensures
            final(self).calls() == old(self).calls().push(
                PulseCall {
                    step: PulseStep::Load { module: name@, args: args@ },
                    reply: load_reply(r),
                },
            ),
            exists|p: &mut P|
                #![auto]
                *p == old(self).server() && *final(p) == final(self).server() && call_ensures(
                    P::load_module,
                    (p, name, args),
                    r,
                ),
    {
        let p = &mut self.port;
        let r = p.load_module(name, args);
        self.history = Ghost(
            self.history@.push(
                PulseCall {
                    step: PulseStep::Load { module: name@, args: args@ },
                    reply: load_reply(r),
                },
            ),
        );
        r
    }

    pub(crate) fn unload_module(&mut self, id: u32) -> (r: Result<(), AudioError>)
        ensures
            final(self).calls() == old(self).calls().push(
                PulseCall { step: PulseStep::Unload(id), reply: done_reply(r) },
            ),
            exists|p: &mut P|
                #![auto]
                *p == old(self).server() && *final(p) == final(self).server() && call_ensures(
                    P::unload_module,
                    (p, id),
                    r,
                ),
    {
        let p = &mut self.port;
        let r = p.unload_module(id);
        self.history = Ghost(
            self.history@.push(PulseCall { step: PulseStep::Unload(id), reply: done_reply(r) }),
        );
        r
    }

    pub(crate) fn move_sink_input(&mut self, index: u32, sink: &str) -> (r: Result<(), AudioError>)
        ensures
            final(self).calls() == old(self).calls().push(
                PulseCall {
                    step: PulseStep::Move { index, sink: sink@ },
                    reply: done_reply(r),
                },
            ),
            exists|p: &mut P|
                #![auto]
                *p == old(self).server() && *final(p) == final(self).server() && call_ensures(
                    P::move_sink_input,
                    (p, index, sink),
                    r,
                ),
    {
        let p = &mut self.port;
        let r = p.move_sink_input(index, sink);
        self.history = Ghost(
            self.history@.push(
                PulseCall {
                    step: PulseStep::Move { index, sink: sink@ },
                    reply: done_reply(r),
                },
            ),
        );
        r
    }
}

} // verus!
