//! Keeping what children write within bounds: a capped capture that is all or
//! nothing, and a rolling tail.

use vstd::prelude::*;

use crate::ports::{ExitStatus, STDERR_TAIL_MAX, STDOUT_CAPTURE_MAX};

verus! {

/// The bytes that a child wrote to stdout, as long as they fit the cap.
pub struct StdoutCapture {
    raw: Vec<u8>,
    oversize: bool,
    all: Ghost<Seq<u8>>,
}

impl StdoutCapture {
    /// Everything that was written.
    pub closed spec fn written(&self) -> Seq<u8> {
        self.all@
    }

    /// The capture holds all that was written, or gave up because it was too much.
    pub closed spec fn wf(&self) -> bool {
        if self.oversize {
            self.all@.len() > STDOUT_CAPTURE_MAX
        } else {
            self.raw@ == self.all@ && self.all@.len() <= STDOUT_CAPTURE_MAX
        }
    }

    /// Nothing written yet.
    pub fn new() -> (r: Self)
        ensures
            r.wf(),
            r.written() == Seq::<u8>::empty(),
    {
        StdoutCapture { raw: Vec::new(), oversize: false, all: Ghost(Seq::empty()) }
    }

    /// More was written. Says whether reading on is of use.
    pub fn push(&mut self, chunk: &[u8]) -> (r: bool)
        requires
            old(self).wf(),
        ensures
            final(self).wf(),
            final(self).written() == old(self).written() + chunk@,
            r == (final(self).written().len() <= STDOUT_CAPTURE_MAX),
    {
        self.all = Ghost(self.all@ + chunk@);
        if self.oversize {
            return false;
        }
        if chunk.len() > STDOUT_CAPTURE_MAX - self.raw.len() {
            self.oversize = true;
            return false;
        }
        let mut i: usize = 0;
        let ghost before = self.raw@;
        while i < chunk.len()
            invariant
                i <= chunk.len(),
                self.raw@ == before + chunk@.take(i as int),
                !self.oversize,
                self.all@ == before + chunk@,
            decreases chunk.len() - i,
        {
            self.raw.push(chunk[i]);
            i = i + 1;
            assert(self.raw@ =~= before + chunk@.take(i as int));
        }
        assert(chunk@.take(chunk@.len() as int) =~= chunk@);
        true
    }

    /// What was captured: everything, or nothing where it was too much.
    pub fn finish(self) -> (r: Vec<u8>)
        requires
            self.wf(),
        ensures
            r@ == (if self.written().len() <= STDOUT_CAPTURE_MAX {
                self.written()
            } else {
                Seq::empty()
            }),
    {
        if self.oversize {
            let none: Vec<u8> = Vec::new();
            assert(none@ =~= Seq::empty());
            none
        } else {
            self.raw
        }
    }
}

/// The last bytes of `s`, at most `max`.
pub open spec fn last_bytes(s: Seq<u8>, max: nat) -> Seq<u8> {
    if s.len() <= max {
        s
    } else {
        s.skip(s.len() - max)
    }
}

/// The end of what a child wrote to stderr.
pub struct StderrTail {
    ring: Vec<u8>,
    all: Ghost<Seq<u8>>,
}

impl StderrTail {
    /// Everything that was written.
    pub closed spec fn written(&self) -> Seq<u8> {
        self.all@
    }

    /// The tail holds the last bytes that were written.
    pub closed spec fn wf(&self) -> bool {
        self.ring@ == last_bytes(self.all@, STDERR_TAIL_MAX as nat)
    }

    /// Nothing written yet.
    pub fn new() -> (r: Self)
        ensures
            r.wf(),
            r.written() == Seq::<u8>::empty(),
    {
        let r = StderrTail { ring: Vec::new(), all: Ghost(Seq::empty()) };
        assert(r.ring@ =~= last_bytes(r.all@, STDERR_TAIL_MAX as nat));
        r
    }

    /// More was written.
    pub fn push(&mut self, chunk: &[u8])
        requires
            old(self).wf(),
        ensures
            final(self).wf(),
            final(self).written() == old(self).written() + chunk@,
    {
        let ghost old_all = self.all@;
        let ghost old_ring = self.ring@;
        let n: usize = chunk.len();
        let mut kept: Vec<u8> = Vec::new();
        // How much of the old tail and of the chunk still counts.
        let from_chunk: usize = if n > STDERR_TAIL_MAX {
            STDERR_TAIL_MAX
        } else {
            n
        };
        let room: usize = STDERR_TAIL_MAX - from_chunk;
        let from_ring: usize = if self.ring.len() > room {
            room
        } else {
            self.ring.len()
        };
        let mut i: usize = self.ring.len() - from_ring;
        let ghost start = i as int;
        while i < self.ring.len()
            invariant
                0 <= start <= i <= self.ring.len(),
                self.ring@ == old_ring,
                kept@ == old_ring.subrange(start, i as int),
            decreases self.ring.len() - i,
        {
            kept.push(self.ring[i]);
            i = i + 1;
            assert(kept@ =~= old_ring.subrange(start, i as int));
        }
        let ghost head = kept@;
        let mut j: usize = n - from_chunk;
        let ghost at = j as int;
        while j < n
            invariant
                0 <= at <= j <= n,
                n == chunk.len(),
                kept@ == head + chunk@.subrange(at, j as int),
            decreases n - j,
        {
            kept.push(chunk[j]);
            j = j + 1;
            assert(kept@ =~= head + chunk@.subrange(at, j as int));
        }
        self.ring = kept;
        self.all = Ghost(self.all@ + chunk@);
        assert(self.ring@ =~= last_bytes(self.all@, STDERR_TAIL_MAX as nat));
    }

    /// The last bytes that were written, at most [`STDERR_TAIL_MAX`].
    pub fn finish(self) -> (r: Vec<u8>)
        requires
            self.wf(),
        ensures
            r@ == last_bytes(self.written(), STDERR_TAIL_MAX as nat),
    {
        self.ring
    }
}

/// The exit status of a child from the parts that the system reports: its exit
/// code, or the signal that ended it, zero if that is unknown.
pub fn map_status(code: Option<i32>, signal: Option<i32>) -> (r: ExitStatus)
    ensures
        r == (match code {
            Some(c) => ExitStatus::Code(c),
            None => ExitStatus::Signal(
                match signal {
                    Some(s) => s,
                    None => 0,
                },
            ),
        }),
{
    match code {
        Some(c) => ExitStatus::Code(c),
        None => match signal {
            Some(s) => ExitStatus::Signal(s),
            None => ExitStatus::Signal(0),
        },
    }
}

} // verus!
