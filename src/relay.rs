use vstd::prelude::*;

use vstd::slice::slice_subrange;

verus! {

/// The largest payload of a chunk, and the size of each pump's buffer.
pub const BUF_SIZE: usize = 4096;

/// How long a pump sleeps when its descriptor would block, and how long the
/// output pump waits for the terminal to accept bytes, in milliseconds.
pub const PIPE_POLL_MILLIS: u64 = 10;

/// How often the supervisor looks at the two pumps, in milliseconds.
pub const JOIN_POLL_MILLIS: u64 = 10;

/// What a pump does next.
#[derive(Clone, Copy, Debug, PartialEq, Eq, Structural)]
pub enum PumpAction {
    /// Return: the relay is shutting down.
    Stop,
    /// Nothing is pending: read more from the source.
    Fill,
    /// Bytes are pending: write them to the sink.
    Drain,
}

/// The state of one direction of the relay: the bytes taken from the source
/// that the sink has not accepted yet. Bytes leave in the order they came,
/// none added and none dropped.
pub struct Pump {
    buf: Vec<u8>,
    offset: usize,
    /// Every byte handed to the pump so far.
    received: Ghost<Seq<u8>>,
    /// Every byte the sink has accepted so far.
    delivered: Ghost<Seq<u8>>,
}

impl Pump {
    /// The bytes still to be written.
    pub closed spec fn remaining(&self) -> Seq<u8> {
        self.buf@.subrange(self.offset as int, self.buf@.len() as int)
    }

    pub closed spec fn received(&self) -> Seq<u8> {
        self.received@
    }

    pub closed spec fn delivered(&self) -> Seq<u8> {
        self.delivered@
    }

    /// What was delivered, followed by what remains, is what was received.
    pub closed spec fn wf(&self) -> bool {
        &&& self.offset <= self.buf@.len()
        &&& self.received@ == self.delivered@ + self.remaining()
    }

    pub fn new() -> (r: Pump)
        ensures
            r.wf(),
            r.received() == Seq::<u8>::empty(),
            r.delivered() == Seq::<u8>::empty(),
            r.remaining() == Seq::<u8>::empty(),
    {
        let r = Pump {
            buf: Vec::new(),
            offset: 0,
            received: Ghost(Seq::empty()),
            delivered: Ghost(Seq::empty()),
        };
        assert(r.remaining() == Seq::<u8>::empty());
        r
    }

    /// The next step: stop as soon as the stop flag is seen, else write what
    /// is pending, else read.
    pub fn next_action(&self, stop: bool) -> (r: PumpAction)
        requires
            self.wf(),
        ensures
            r == if stop {
                PumpAction::Stop
            } else if self.remaining().len() == 0 {
                PumpAction::Fill
            } else {
                PumpAction::Drain
            },
    {
        if stop {
            PumpAction::Stop
        } else if self.offset == self.buf.len() {
            PumpAction::Fill
        } else {
            PumpAction::Drain
        }
    }

    /// Takes the bytes just read from the source.
    pub fn fill(&mut self, bytes: &[u8])
        requires
            old(self).wf(),
            old(self).remaining().len() == 0,
        ensures
            final(self).wf(),
            final(self).remaining() == bytes@,
            final(self).received() == old(self).received() + bytes@,
            final(self).delivered() == old(self).delivered(),
    {
        self.buf.clear();
        self.offset = 0;
        let mut i: usize = 0;
        while i < bytes.len()
            invariant
                0 <= i <= bytes@.len(),
                self.offset == 0,
                self.buf@ == bytes@.subrange(0, i as int),
                self.received@ == old(self).received@,
                self.delivered@ == old(self).delivered@,
            decreases bytes@.len() - i,
        {
            self.buf.push(bytes[i]);
            i += 1;
        }
        assert(self.buf@ == bytes@);
        assert(self.remaining() == bytes@);
        assert(old(self).received@ == old(self).delivered@);
        self.received = Ghost(self.received@ + bytes@);
    }

    /// The bytes to hand to the sink.
    pub fn pending(&self) -> (r: &[u8])
        requires
            self.wf(),
        ensures
            r@ == self.remaining(),
    {
        slice_subrange(self.buf.as_slice(), self.offset, self.buf.len())
    }

    /// Records that the sink accepted the first `n` pending bytes.
    pub fn drained(&mut self, n: usize)
        requires
            old(self).wf(),
            n <= old(self).remaining().len(),
        ensures
            final(self).wf(),
            final(self).received() == old(self).received(),
            final(self).delivered() == old(self).delivered() + old(self).remaining().subrange(
                0,
                n as int,
            ),
            final(self).remaining() == old(self).remaining().subrange(
                n as int,
                old(self).remaining().len() as int,
            ),
    {
        let len = self.buf.len();
        let ghost before = self.remaining();
        assert(before.len() == len - self.offset);
        assert(before == before.subrange(0, n as int) + before.subrange(n as int, before.len() as int));
        self.delivered = Ghost(self.delivered@ + before.subrange(0, n as int));
        self.offset = self.offset + n;
        assert(self.remaining() == before.subrange(n as int, before.len() as int));
        assert(self.received@ =~= old(self).delivered@ + before.subrange(0, n as int) + before.subrange(
            n as int,
            before.len() as int,
        ));
    }
}

/// Transparency of a pump: at every step the bytes written so far are a
/// prefix of the bytes read, and once nothing is pending they are all of
/// them, in order, with none added or removed.
pub proof fn lemma_pump_transparent(p: &Pump)
    requires
        p.wf(),
    ensures
        p.delivered().len() <= p.received().len(),
        p.delivered() == p.received().subrange(0, p.delivered().len() as int),
        p.remaining().len() == 0 ==> p.delivered() == p.received(),
{
    assert(p.received().subrange(0, p.delivered().len() as int) =~= p.delivered());
    if p.remaining().len() == 0 {
        assert(p.received() =~= p.delivered());
    }
}

/// The supervisor's decision: the stop flag, once set, stays set, and it is
/// set as soon as either pump has finished.
pub fn supervise(stop: bool, input_finished: bool, output_finished: bool) -> (r: bool)
    ensures
        r == (stop || input_finished || output_finished),
{
    stop || input_finished || output_finished
}

} // verus!
