use vstd::prelude::*;
use vstd::slice::slice_subrange;

verus! {

/// Size of the buffer each direction reads into.
pub const BUF_SIZE: usize = 8192;

/// Where one direction of the relay stands.
#[derive(Debug, Clone, Copy, PartialEq, Eq, Structural)]
pub enum RelayState {
    /// No pending output: the next step reads from the source.
    Reading,
    /// `buf[offset..end]` is still to be written to the destination.
    Writing(usize, usize),
}

/// What a non-blocking read or write attempt came back with.
pub enum Outcome {
    /// It would block, or was interrupted: try again later.
    Blocked,
    /// The peer closed, or the call failed.
    Closed,
    /// A read returned these bytes (an empty read means the source closed).
    Received(Vec<u8>),
    /// A write accepted this many bytes (zero means the destination is gone).
    Sent(usize),
}

/// One direction of a relay: bytes read from a source are written out in
/// full, in order, before the next read.
pub struct Worker {
    buf: Vec<u8>,
    state: RelayState,
    /// Every byte read from the source so far.
    received: Ghost<Seq<u8>>,
    /// Every byte written to the destination so far.
    delivered: Ghost<Seq<u8>>,
}

impl Worker {
    pub closed spec fn state_spec(&self) -> RelayState {
        self.state
    }

    pub closed spec fn received(&self) -> Seq<u8> {
        self.received@
    }

    pub closed spec fn delivered(&self) -> Seq<u8> {
        self.delivered@
    }

    /// The bytes read but not yet written.
    pub closed spec fn pending_spec(&self) -> Seq<u8> {
        match self.state {
            RelayState::Reading => Seq::empty(),
            RelayState::Writing(offset, end) => self.buf@.subrange(offset as int, end as int),
        }
    }

    pub closed spec fn wf(&self) -> bool {
        &&& self.buf@.len() <= BUF_SIZE
        &&& match self.state {
            RelayState::Reading => true,
            RelayState::Writing(offset, end) => offset < end <= self.buf@.len(),
        }
        &&& self.received@ == self.delivered@ + self.pending_spec()
    }

    /// Whether `outcome` can be what the attempt that `self` asks for returned:
    /// a read while reading, of at most a buffer; a write while writing, of at
    /// most what was offered.
    pub open spec fn fits(&self, outcome: Outcome) -> bool {
        match outcome {
            Outcome::Blocked | Outcome::Closed => true,
            Outcome::Received(data) => self.state_spec() == RelayState::Reading && data@.len() <= BUF_SIZE,
            Outcome::Sent(k) => self.state_spec() != RelayState::Reading && k <= self.pending_spec().len(),
        }
    }

    /// One step of a direction: `pre` becomes `post` on `outcome`, and `r`
    /// says whether the direction goes on.
    pub open spec fn steps(pre: Worker, post: Worker, outcome: Outcome, r: bool) -> bool {
        match outcome {
            Outcome::Blocked => r && post == pre,
            Outcome::Closed => !r && post == pre,
            Outcome::Received(data) => if data@.len() == 0 {
                !r && post == pre
            } else {
                &&& r
                &&& post.state_spec() == RelayState::Writing(0, data@.len() as usize)
                &&& post.pending_spec() == data@
                &&& post.received() == pre.received() + data@
                &&& post.delivered() == pre.delivered()
            },
            Outcome::Sent(k) => if k == 0 {
                !r && post == pre
            } else {
                &&& r
                &&& post.pending_spec() == pre.pending_spec().subrange(k as int, pre.pending_spec().len() as int)
                &&& post.received() == pre.received()
                &&& post.delivered() == pre.delivered() + pre.pending_spec().subrange(0, k as int)
                &&& (k < pre.pending_spec().len() ==> post.state_spec() == RelayState::Writing(
                    (pre.state_spec()->Writing_0 + k) as usize,
                    pre.state_spec()->Writing_1,
                ))
                &&& (k == pre.pending_spec().len() ==> post.state_spec() == RelayState::Reading)
            },
        }
    }

    pub fn new() -> (w: Worker)
        ensures
            w.wf(),
            w.state_spec() == RelayState::Reading,
            w.received() == Seq::<u8>::empty(),
            w.delivered() == Seq::<u8>::empty(),
    {
        Worker {
            buf: Vec::new(),
            state: RelayState::Reading,
            received: Ghost(Seq::empty()),
            delivered: Ghost(Seq::empty()),
        }
    }

    pub fn state(&self) -> (r: RelayState)
        ensures
            r == self.state_spec(),
    {
        self.state
    }

    /// The bytes to offer to the destination's next write: empty while reading.
    pub fn pending(&self) -> (r: &[u8])
        requires
            self.wf(),
        ensures
            r@ == self.pending_spec(),
    {
        match self.state {
            RelayState::Reading => slice_subrange(self.buf.as_slice(), 0, 0),
            RelayState::Writing(offset, end) => slice_subrange(self.buf.as_slice(), offset, end),
        }
    }

    /// Takes one step on the outcome of the attempt the state asked for, and
    /// says whether this direction goes on. A blocked attempt changes nothing;
    /// a closed peer, an empty read or a write of zero bytes ends it; a read
    /// fills the buffer; a write flushes part or all of it.
    pub fn run(&mut self, outcome: Outcome) -> (r: bool)
        requires
            old(self).wf(),
            old(self).fits(outcome),
        ensures
            final(self).wf(),
            Worker::steps(*old(self), *final(self), outcome, r),
    {
        match outcome {
            Outcome::Blocked => true,
            Outcome::Closed => false,
            Outcome::Received(data) => {
                if data.len() == 0 {
                    return false;
                }
                let len = data.len();
                proof {
                    self.received@ = self.received@ + data@;
                }
                self.buf = data;
                self.state = RelayState::Writing(0, len);
                assert(self.buf@.subrange(0, len as int) =~= self.buf@);
                assert(self.received@ =~= self.delivered@ + self.pending_spec());
                true
            },
            Outcome::Sent(k) => {
                if k == 0 {
                    return false;
                }
                let ghost pending = self.pending_spec();
                if let RelayState::Writing(offset, end) = self.state {
                    proof {
                        self.delivered@ = self.delivered@ + pending.subrange(0, k as int);
                    }
                    if offset + k < end {
                        self.state = RelayState::Writing(offset + k, end);
                    } else {
                        self.state = RelayState::Reading;
                    }
                    assert(self.pending_spec() =~= pending.subrange(k as int, pending.len() as int));
                    assert(self.received@ =~= self.delivered@ + self.pending_spec());
                }
                true
            },
        }
    }
}

/// Bytes leave a direction in the order they arrived: what was delivered is
/// always a prefix of what was received.
pub proof fn lemma_delivered_in_order(w: &Worker)
    requires
        w.wf(),
    ensures
        w.delivered().is_prefix_of(w.received()),
        w.received() == w.delivered() + w.pending_spec(),
{
    assert(w.received().subrange(0, w.delivered().len() as int) =~= w.delivered());
}

/// One of the two directions of a connection pair.
#[derive(Debug, Clone, Copy, PartialEq, Eq, Structural)]
pub enum Direction {
    ClientToBackend,
    BackendToClient,
}

impl Direction {
    pub open spec fn other(self) -> Direction {
        match self {
            Direction::ClientToBackend => Direction::BackendToClient,
            Direction::BackendToClient => Direction::ClientToBackend,
        }
    }
}

/// Both directions of a connection pair, stepped in turn: client to backend,
/// then backend to client. When either direction ends, the pair is closed as a
/// whole and takes no further steps.
pub struct Duplex {
    to_backend: Worker,
    to_client: Worker,
    turn: Direction,
    open: bool,
}

impl Duplex {
    pub closed spec fn worker_spec(&self, d: Direction) -> Worker {
        match d {
            Direction::ClientToBackend => self.to_backend,
            Direction::BackendToClient => self.to_client,
        }
    }

    pub closed spec fn turn_spec(&self) -> Direction {
        self.turn
    }

    pub closed spec fn is_open_spec(&self) -> bool {
        self.open
    }

    pub closed spec fn wf(&self) -> bool {
        self.to_backend.wf() && self.to_client.wf()
    }

    pub fn new() -> (d: Duplex)
        ensures
            d.wf(),
            d.is_open_spec(),
            d.turn_spec() == Direction::ClientToBackend,
            d.worker_spec(Direction::ClientToBackend).state_spec() == RelayState::Reading,
            d.worker_spec(Direction::ClientToBackend).received() == Seq::<u8>::empty(),
            d.worker_spec(Direction::BackendToClient).state_spec() == RelayState::Reading,
            d.worker_spec(Direction::BackendToClient).received() == Seq::<u8>::empty(),
    {
        Duplex { to_backend: Worker::new(), to_client: Worker::new(), turn: Direction::ClientToBackend, open: true }
    }

    /// The direction whose attempt the next outcome reports.
    pub fn turn(&self) -> (r: Direction)
        ensures
            r == self.turn_spec(),
    {
        self.turn
    }

    pub fn is_open(&self) -> (r: bool)
        ensures
            r == self.is_open_spec(),
    {
        self.open
    }

    pub fn worker(&self, d: Direction) -> (r: &Worker)
        ensures
            *r == self.worker_spec(d),
    {
        match d {
            Direction::ClientToBackend => &self.to_backend,
            Direction::BackendToClient => &self.to_client,
        }
    }

    /// Steps the direction whose turn it is on `outcome`. If it goes on, the
    /// turn passes to the other direction; if it ends, the whole pair closes.
    pub fn run(&mut self, outcome: Outcome) -> (r: bool)
        requires
            old(self).wf(),
            old(self).is_open_spec(),
            old(self).worker_spec(old(self).turn_spec()).fits(outcome),
        ensures
            final(self).wf(),
            Worker::steps(
                old(self).worker_spec(old(self).turn_spec()),
                final(self).worker_spec(old(self).turn_spec()),
                outcome,
                r,
            ),
            final(self).worker_spec(old(self).turn_spec().other()) == old(self).worker_spec(
                old(self).turn_spec().other(),
            ),
            final(self).is_open_spec() == r,
            r ==> final(self).turn_spec() == old(self).turn_spec().other(),
    {
        let go = match self.turn {
            Direction::ClientToBackend => self.to_backend.run(outcome),
            Direction::BackendToClient => self.to_client.run(outcome),
        };
        if go {
            self.turn = match self.turn {
                Direction::ClientToBackend => Direction::BackendToClient,
                Direction::BackendToClient => Direction::ClientToBackend,
            };
        } else {
            self.open = false;
        }
        go
    }
}

} // verus!
