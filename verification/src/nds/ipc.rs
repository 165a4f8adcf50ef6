//! Inter-processor communication: `IPCSYNC` and the two 16-word FIFOs.
//!
//! There is exactly one of these in the machine, not one per core: the ARM9's send FIFO is the
//! ARM7's receive FIFO. Interrupts are latched here and taken with [`Ipc::take_pending`], and both
//! FIFO interrupts are edges, not levels.

use vstd::prelude::*;
use crate::fault::Fault;
use crate::nds::Core;
use crate::state::{self, StateError, StateReader, StateWriter};

verus! {

/// Words that each direction holds.
pub const FIFO_DEPTH: usize = 16;

/// Which of this module's interrupts a core has pending.
#[derive(Debug, Clone, Copy, PartialEq, Eq, Structural)]
pub struct IpcIrqs {
    /// The other core strobed `IPCSYNC` bit 13 and this core has bit 14 set.
    pub sync: bool,
    /// This core's send FIFO went empty with its send-empty interrupt enabled.
    pub send_empty: bool,
    /// This core's receive FIFO went non-empty with its receive interrupt enabled.
    pub recv_not_empty: bool,
}

/// Nothing pending.
pub open spec fn no_irqs() -> IpcIrqs {
    IpcIrqs { sync: false, send_empty: false, recv_not_empty: false }
}

impl IpcIrqs {
    #[verifier::allow_in_spec]
    pub fn any(self) -> bool
        returns
            (self.sync || self.send_empty || self.recv_not_empty),
    {
        self.sync || self.send_empty || self.recv_not_empty
    }
}

impl Default for IpcIrqs {
    fn default() -> (r: Self)
        ensures
            r == no_irqs(),
    {
        IpcIrqs { sync: false, send_empty: false, recv_not_empty: false }
    }
}

/// A 16-word queue, stored as a ring so that a save state has a fixed size.
#[derive(Debug, Clone, Copy, PartialEq, Eq)]
pub struct Fifo {
    pub words: [u32; 16],
    pub head: u8,
    pub len: u8,
}

/// How a queue is laid out: its sixteen words, stale ones and all, where it begins and how many of
/// them count.
#[verifier::ext_equal]
pub struct Layout {
    pub words: Seq<u32>,
    pub head: int,
    pub len: int,
}

impl Layout {
    /// The indices stay inside the ring.
    pub open spec fn wf(self) -> bool {
        self.words.len() == 16 && 0 <= self.head < 16 && 0 <= self.len <= 16
    }

    /// What the ring holds, oldest first.
    pub open spec fn queue(self) -> Seq<u32> {
        Seq::new(self.len as nat, |i: int| self.words[(self.head + i) % 16])
    }

    /// Nothing in it yet.
    pub open spec fn initial() -> Layout {
        Layout { words: Seq::new(16, |i: int| 0u32), head: 0, len: 0 }
    }

    /// A word added at the back, unless the ring is full.
    pub open spec fn pushed(self, word: u32) -> Layout {
        if self.len != 16 {
            Layout {
                words: self.words.update((self.head + self.len) % 16, word),
                len: self.len + 1,
                ..self
            }
        } else {
            self
        }
    }

    /// The word at the front taken, if there is one. It stays in the ring, stale.
    pub open spec fn popped(self) -> Layout {
        if self.len > 0 {
            Layout { head: (self.head + 1) % 16, len: self.len - 1, ..self }
        } else {
            self
        }
    }

    /// Emptied. The words stay in the ring, stale.
    pub open spec fn cleared(self) -> Layout {
        Layout { head: 0, len: 0, ..self }
    }

    /// The ring after reading the stream at `at`, as far as `limit` lets it be read and whatever its
    /// indices come to.
    pub open spec fn restored(self, d: Seq<u8>, limit: int, at: int) -> Layout {
        Layout {
            words: state::words_or(d, limit, at, self.words),
            head: if at + 65 <= limit { d[at + 64] as int } else { self.head },
            len: if at + 66 <= limit { d[at + 65] as int } else { self.len },
        }
    }
}

impl View for Fifo {
    type V = Seq<u32>;

    open spec fn view(&self) -> Seq<u32> {
        self.layout().queue()
    }
}

impl Fifo {
    pub open spec fn layout(&self) -> Layout {
        Layout { words: self.words@, head: self.head as int, len: self.len as int }
    }

    /// The indices stay inside the ring, as they do but for a state that was refused half-way.
    pub open spec fn wf(&self) -> bool {
        self.layout().wf()
    }

    pub fn new() -> (r: Self)
        ensures
            r.wf(),
            r@ == Seq::<u32>::empty(),
            r.layout() == Layout::initial(),
    {
        let r = Fifo { words: crate::arrays::filled(0), head: 0, len: 0 };
        assert(r@ =~= Seq::empty());
        assert(r.layout() =~= Layout::initial());
        r
    }

    pub fn is_empty(&self) -> (r: bool)
        ensures
            r == (self@.len() == 0),
    {
        self.len == 0
    }

    pub fn is_full(&self) -> (r: bool)
        ensures
            r == (self@.len() == 16),
    {
        self.len == 16
    }

    /// Add a word at the back, unless the queue is full.
    pub fn push(&mut self, word: u32) -> (r: bool)
        requires
            old(self).layout().len < 255,
        ensures
            old(self).wf() ==> final(self).wf(),
            r == (old(self)@.len() != 16),
            old(self).layout().len <= 16 ==> final(self)@ == (if r {
                old(self)@.push(word)
            } else {
                old(self)@
            }),
            final(self).layout() == old(self).layout().pushed(word),
    {
        if self.is_full() {
            return false;
        }
        let tail: usize = (self.head as usize + self.len as usize) % 16;
        self.words[tail] = word;
        self.len = self.len + 1;
        assert(old(self).layout().len <= 16 ==> self@ =~= old(self)@.push(word));
        true
    }

    /// Take the word at the front.
    pub fn pop(&mut self) -> (r: Option<u32>)
        requires
            old(self)@.len() > 0 ==> old(self).layout().head < 16,
        ensures
            old(self).wf() ==> final(self).wf(),
            old(self)@.len() == 0 ==> r is None && final(self)@ == old(self)@,
            old(self)@.len() > 0 ==> r == Some(old(self)@[0]) && final(self)@
                == old(self)@.drop_first(),
            final(self).layout() == old(self).layout().popped(),
    {
        if self.is_empty() {
            return None;
        }
        let word = self.words[self.head as usize];
        self.head = (self.head + 1) % 16;
        self.len = self.len - 1;
        assert(self@ =~= old(self)@.drop_first());
        Some(word)
    }

    pub fn clear(&mut self)
        ensures
            final(self).wf(),
            final(self)@ == Seq::<u32>::empty(),
            final(self).layout() == old(self).layout().cleared(),
    {
        self.head = 0;
        self.len = 0;
        assert(self@ =~= Seq::empty());
    }

    fn save(&self, w: &mut StateWriter)
        ensures
            state::continues(old(w)@, final(w)@),
            final(w)@.len() == old(w)@.len() + 66,
            layout_at(final(w)@, old(w)@.len() as int) == self.layout(),
    {
        let ghost start = w@;
        w.write_words(&self.words);
        let ghost middle = w@;
        w.write_u8(self.head);
        w.write_u8(self.len);
        proof {
            state::lemma_words_kept(middle, w@, start.len() as int, self.words@);
            assert forall|i: int| 0 <= i < 16 implies #[trigger] state::le32(
                w@,
                start.len() + 4 * i,
            ) == self.words@[i] by {
                assert(state::words_or(w@, w@.len() as int, start.len() as int, self.words@)[i]
                    == self.words@[i]);
            }
            assert(layout_at(w@, start.len() as int) =~= self.layout());
        }
    }

    /// Read a ring back. One whose indices fall outside it is refused, but it has been read by then.
    fn load(&mut self, r: &mut StateReader)
        ensures
            final(self).layout() == old(self).layout().restored(
                old(r).data(),
                old(r).limit(),
                old(r).pos() as int,
            ),
            final(r).data() == old(r).data(),
            final(r).error() == queue_error(*old(r)),
            final(r).error() is None ==> final(r).pos() == old(r).pos() + 66,
    {
        r.read_words(&mut self.words);
        self.head = r.u8_or(self.head);
        self.len = r.u8_or(self.len);
        if !r.failed() && (self.head >= 16 || self.len > 16) {
            r.reject(Fault::RingIndices);
        }
        assert(self.layout() =~= old(self).layout().restored(
            old(r).data(),
            old(r).limit(),
            old(r).pos() as int,
        ));
    }
}

/// Whether the ring that a stream holds at `at` has indices inside it.
pub open spec fn queue_fits(d: Seq<u8>, at: int) -> bool {
    d[at + 64] < 16 && d[at + 65] <= 16
}

/// The ring that a stream holds at `at`.
pub open spec fn layout_at(d: Seq<u8>, at: int) -> Layout {
    Layout {
        words: Seq::new(16, |i: int| state::le32(d, at + 4 * i)),
        head: d[at + 64] as int,
        len: d[at + 65] as int,
    }
}

/// What reading one ring does to a reader.
pub open spec fn queue_error(r: StateReader) -> Option<StateError> {
    if r.pos() + 66 > r.limit() {
        Some(r.end_error())
    } else if !queue_fits(r.data(), r.pos() as int) {
        Some(StateError::Malformed(Fault::RingIndices))
    } else {
        None
    }
}

/// Per-core control state.
#[derive(Debug, Clone, Copy, PartialEq, Eq, Structural)]
pub struct Side {
    /// The four bits that this core presents to the other through `IPCSYNC`.
    pub sync_out: u8,
    /// Whether a strobe from the other core raises an interrupt here.
    pub sync_irq_enable: bool,
    pub fifo_enable: bool,
    pub send_empty_irq: bool,
    pub recv_not_empty_irq: bool,
    /// Set by a send into a full FIFO or a receive from an empty one, and cleared only by writing
    /// a 1 to bit 14.
    pub error: bool,
    /// The last word that this core successfully received, which is what a read of an empty FIFO
    /// returns.
    pub last_recv: u32,
    pub pending: IpcIrqs,
}

impl Side {
    /// Everything off.
    pub open spec fn initial() -> Side {
        Side {
            sync_out: 0,
            sync_irq_enable: false,
            fifo_enable: false,
            send_empty_irq: false,
            recv_not_empty_irq: false,
            error: false,
            last_recv: 0,
            pending: no_irqs(),
        }
    }

    /// The side after reading the stream at `at`, as far as `limit` lets it be read.
    pub open spec fn restored(self, d: Seq<u8>, limit: int, at: int) -> Side {
        Side {
            sync_out: state::or8(d, limit, at, self.sync_out),
            sync_irq_enable: state::or_bool(d, limit, at + 1, self.sync_irq_enable),
            fifo_enable: state::or_bool(d, limit, at + 2, self.fifo_enable),
            send_empty_irq: state::or_bool(d, limit, at + 3, self.send_empty_irq),
            recv_not_empty_irq: state::or_bool(d, limit, at + 4, self.recv_not_empty_irq),
            error: state::or_bool(d, limit, at + 5, self.error),
            last_recv: state::or32(d, limit, at + 6, self.last_recv),
            pending: IpcIrqs {
                sync: state::or_bool(d, limit, at + 10, self.pending.sync),
                send_empty: state::or_bool(d, limit, at + 11, self.pending.send_empty),
                recv_not_empty: state::or_bool(d, limit, at + 12, self.pending.recv_not_empty),
            },
        }
    }

    fn new() -> (r: Self)
        ensures
            r == Side::initial(),
    {
        Side {
            sync_out: 0,
            sync_irq_enable: false,
            fifo_enable: false,
            send_empty_irq: false,
            recv_not_empty_irq: false,
            error: false,
            last_recv: 0,
            pending: IpcIrqs::default(),
        }
    }

    fn save(&self, w: &mut StateWriter)
        ensures
            state::continues(old(w)@, final(w)@),
            final(w)@.len() == old(w)@.len() + 13,
            self.restored(final(w)@, final(w)@.len() as int, old(w)@.len() as int) == *self,
    {
        w.write_u8(self.sync_out);
        w.write_bool(self.sync_irq_enable);
        w.write_bool(self.fifo_enable);
        w.write_bool(self.send_empty_irq);
        w.write_bool(self.recv_not_empty_irq);
        w.write_bool(self.error);
        w.write_u32(self.last_recv);
        w.write_bool(self.pending.sync);
        w.write_bool(self.pending.send_empty);
        w.write_bool(self.pending.recv_not_empty);
    }

    fn load(&mut self, r: &mut StateReader)
        ensures
            *final(self) == old(self).restored(old(r).data(), old(r).limit(), old(r).pos() as int),
            state::advanced(*old(r), *final(r), 13),
    {
        self.sync_out = r.u8_or(self.sync_out);
        self.sync_irq_enable = r.bool_or(self.sync_irq_enable);
        self.fifo_enable = r.bool_or(self.fifo_enable);
        self.send_empty_irq = r.bool_or(self.send_empty_irq);
        self.recv_not_empty_irq = r.bool_or(self.recv_not_empty_irq);
        self.error = r.bool_or(self.error);
        self.last_recv = r.u32_or(self.last_recv);
        self.pending.sync = r.bool_or(self.pending.sync);
        self.pending.send_empty = r.bool_or(self.pending.send_empty);
        self.pending.recv_not_empty = r.bool_or(self.pending.recv_not_empty);
    }
}

/// A side that was saved stays readable as the stream grows.
proof fn lemma_side_kept(shorter: Seq<u8>, longer: Seq<u8>, at: int, side: Side)
    requires
        0 <= at,
        at + 13 <= shorter.len(),
        state::continues(shorter, longer),
        side.restored(shorter, shorter.len() as int, at) == side,
    ensures
        side.restored(longer, longer.len() as int, at) == side,
{
}

/// A queue that was saved stays readable as the stream grows.
proof fn lemma_queue_kept(shorter: Seq<u8>, longer: Seq<u8>, at: int)
    requires
        0 <= at,
        at + 66 <= shorter.len(),
        state::continues(shorter, longer),
    ensures
        layout_at(longer, at) == layout_at(shorter, at),
{
    assert(layout_at(longer, at) =~= layout_at(shorter, at));
}

/// What the two cores share, as software can tell: each core's side, and what waits for each.
#[verifier::ext_equal]
pub struct IpcState {
    pub sides: Seq<Side>,
    pub queues: Seq<Seq<u32>>,
}

/// One bit of a control register.
pub open spec fn bit(set: bool, value: int) -> int {
    if set { value } else { 0 }
}

impl IpcState {
    /// Both sides are there, and no queue is over-full.
    pub open spec fn wf(self) -> bool {
        &&& self.sides.len() == 2
        &&& self.queues.len() == 2
        &&& self.queues[0].len() <= 16
        &&& self.queues[1].len() <= 16
    }

    pub open spec fn side(self, core: Core) -> Side {
        self.sides[core.index() as int]
    }

    /// What waits for a core.
    pub open spec fn queue(self, core: Core) -> Seq<u32> {
        self.queues[core.index() as int]
    }

    pub open spec fn with_side(self, core: Core, side: Side) -> IpcState {
        IpcState { sides: self.sides.update(core.index() as int, side), ..self }
    }

    pub open spec fn with_queue(self, core: Core, queue: Seq<u32>) -> IpcState {
        IpcState { queues: self.queues.update(core.index() as int, queue), ..self }
    }

    /// Nothing enabled, nothing queued.
    pub open spec fn initial() -> IpcState {
        IpcState {
            sides: seq![Side::initial(), Side::initial()],
            queues: seq![Seq::empty(), Seq::empty()],
        }
    }

    /// `IPCSYNC` as a core reads it: the other core's nibble low, its own high.
    pub open spec fn sync_word(self, core: Core) -> u32 {
        (self.side(core.other()).sync_out as u32) | ((self.side(core).sync_out as u32) << 8u32) | (
        if self.side(core).sync_irq_enable {
            0x4000u32
        } else {
            0
        })
    }

    /// `IPCSYNC` written. Bit 13 is a strobe, not a stored bit.
    pub open spec fn sync_written(self, core: Core, value: u32) -> IpcState {
        let stored = self.with_side(
            core,
            Side {
                sync_out: (value / 0x100 % 16) as u8,
                sync_irq_enable: value & 0x4000 != 0,
                ..self.side(core)
            },
        );
        let them = self.side(core.other());
        if value & 0x2000 != 0 && them.sync_irq_enable {
            stored.with_side(
                core.other(),
                Side { pending: IpcIrqs { sync: true, ..them.pending }, ..them },
            )
        } else {
            stored
        }
    }

    /// `IPCFIFOCNT` as a core reads it.
    pub open spec fn control_word(self, core: Core) -> u16 {
        let me = self.side(core);
        let send = self.queue(core.other());
        let recv = self.queue(core);
        (bit(send.len() == 0, 0x0001) + bit(send.len() == 16, 0x0002) + bit(
            me.send_empty_irq,
            0x0004,
        ) + bit(recv.len() == 0, 0x0100) + bit(recv.len() == 16, 0x0200) + bit(
            me.recv_not_empty_irq,
            0x0400,
        ) + bit(me.error, 0x4000) + bit(me.fifo_enable, 0x8000)) as u16
    }

    /// `IPCFIFOCNT` written: bit 3 clears the send FIFO, bit 14 acknowledges the error, and arming
    /// an interrupt whose condition already holds raises it.
    pub open spec fn control_written(self, core: Core, value: u16) -> IpcState {
        let cleared = if value & 0x0008 != 0 {
            self.with_queue(core.other(), Seq::empty())
        } else {
            self
        };
        let me = self.side(core);
        let send_irq = value & 0x0004 != 0;
        let recv_irq = value & 0x0400 != 0;
        let send_raised = send_irq && !me.send_empty_irq && cleared.queue(core.other()).len() == 0;
        let recv_raised = recv_irq && !me.recv_not_empty_irq && cleared.queue(core).len() > 0;
        cleared.with_side(
            core,
            Side {
                pending: IpcIrqs {
                    send_empty: me.pending.send_empty || send_raised,
                    recv_not_empty: me.pending.recv_not_empty || recv_raised,
                    ..me.pending
                },
                send_empty_irq: send_irq,
                recv_not_empty_irq: recv_irq,
                fifo_enable: value & 0x8000 != 0,
                error: me.error && value & 0x4000 == 0,
                ..me
            },
        )
    }

    /// A word sent. A disabled FIFO swallows it; a full one drops it and flags the error.
    pub open spec fn sent(self, core: Core, word: u32) -> IpcState {
        let me = self.side(core);
        let them = self.side(core.other());
        let queue = self.queue(core.other());
        if !me.fifo_enable {
            self
        } else if queue.len() == 16 {
            self.with_side(core, Side { error: true, ..me })
        } else {
            let queued = self.with_queue(core.other(), queue.push(word));
            if queue.len() == 0 && them.recv_not_empty_irq {
                queued.with_side(
                    core.other(),
                    Side { pending: IpcIrqs { recv_not_empty: true, ..them.pending }, ..them },
                )
            } else {
                queued
            }
        }
    }

    /// What a receive answers: the word at the front, or the last one there was.
    pub open spec fn reply(self, core: Core) -> u32 {
        if self.side(core).fifo_enable && self.queue(core).len() > 0 {
            self.queue(core)[0]
        } else {
            self.side(core).last_recv
        }
    }

    /// A word received. A disabled FIFO does not pop; an empty one flags the error.
    pub open spec fn received(self, core: Core) -> IpcState {
        let me = self.side(core);
        let them = self.side(core.other());
        let queue = self.queue(core);
        if !me.fifo_enable {
            self
        } else if queue.len() == 0 {
            self.with_side(core, Side { error: true, ..me })
        } else {
            let popped = self.with_queue(core, queue.drop_first()).with_side(
                core,
                Side { last_recv: queue[0], ..me },
            );
            if queue.len() == 1 && them.send_empty_irq {
                popped.with_side(
                    core.other(),
                    Side { pending: IpcIrqs { send_empty: true, ..them.pending }, ..them },
                )
            } else {
                popped
            }
        }
    }

    /// Whatever a core was to be interrupted for, taken.
    pub open spec fn taken(self, core: Core) -> IpcState {
        self.with_side(core, Side { pending: no_irqs(), ..self.side(core) })
    }

    /// The state after reading the stream at `at`, from one whose queues are laid out as `rings`.
    pub open spec fn restored(
        self,
        rings: Seq<Layout>,
        d: Seq<u8>,
        limit: int,
        at: int,
    ) -> IpcState {
        IpcState {
            sides: seq![
                self.sides[0].restored(d, limit, at),
                self.sides[1].restored(d, limit, at + 13),
            ],
            queues: seq![
                rings_restored(rings, d, limit, at)[0].queue(),
                rings_restored(rings, d, limit, at)[1].queue(),
            ],
        }
    }

    /// Whether the stream holds exactly this state at `at`.
    pub open spec fn encoded_at(self, d: Seq<u8>, at: int) -> bool {
        &&& at + saved_size() <= d.len()
        &&& queue_fits(d, at + 26)
        &&& queue_fits(d, at + 92)
        &&& self.sides[0].restored(d, d.len() as int, at) == self.sides[0]
        &&& self.sides[1].restored(d, d.len() as int, at + 13) == self.sides[1]
        &&& self.queues == seq![layout_at(d, at + 26).queue(), layout_at(d, at + 92).queue()]
    }
}

/// The two rings after reading the stream at `at`. The second is reached only through a valid first
/// one.
pub open spec fn rings_restored(
    rings: Seq<Layout>,
    d: Seq<u8>,
    limit: int,
    at: int,
) -> Seq<Layout> {
    seq![
        rings[0].restored(d, limit, at + 26),
        if queue_fits(d, at + 26) {
            rings[1].restored(d, limit, at + 92)
        } else {
            rings[1]
        },
    ]
}

/// How many bytes the pair of cores saves.
pub open spec fn saved_size() -> int {
    158
}

/// What reading a whole state does to a reader.
pub open spec fn load_error(r: StateReader) -> Option<StateError> {
    if r.pos() + 92 > r.limit() {
        Some(r.end_error())
    } else if !queue_fits(r.data(), r.pos() as int + 26) {
        Some(StateError::Malformed(Fault::RingIndices))
    } else if r.pos() + 158 > r.limit() {
        Some(r.end_error())
    } else if !queue_fits(r.data(), r.pos() as int + 92) {
        Some(StateError::Malformed(Fault::RingIndices))
    } else {
        None
    }
}

/// `IPCSYNC`, `IPCFIFOCNT`, and the two FIFOs.
#[derive(Debug, Clone, PartialEq, Eq)]
pub struct Ipc {
    pub sides: [Side; 2],
    /// Indexed by the receiving core.
    pub queues: [Fifo; 2],
}

impl View for Ipc {
    type V = IpcState;

    open spec fn view(&self) -> IpcState {
        IpcState { sides: self.sides@, queues: seq![self.queues[0]@, self.queues[1]@] }
    }
}

impl Ipc {
    /// How the two queues are laid out.
    pub open spec fn layouts(&self) -> Seq<Layout> {
        seq![self.queues[0].layout(), self.queues[1].layout()]
    }

    /// How one core's receive queue is laid out.
    pub open spec fn layout(&self, core: Core) -> Layout {
        self.layouts()[core.index() as int]
    }

    /// Both rings are well formed.
    pub open spec fn wf(&self) -> bool {
        self.queues[0].wf() && self.queues[1].wf()
    }

    pub fn new() -> (r: Self)
        ensures
            r.wf(),
            r@ == IpcState::initial(),
            r.layouts() == seq![Layout::initial(), Layout::initial()],
    {
        let r = Ipc { sides: [Side::new(), Side::new()], queues: [Fifo::new(), Fifo::new()] };
        assert(r@ =~= IpcState::initial());
        r
    }

    /// Take and clear whatever this core should be interrupted for.
    pub fn take_pending(&mut self, core: Core) -> (r: IpcIrqs)
        ensures
            old(self).wf() ==> final(self).wf(),
            r == old(self)@.side(core).pending,
            final(self)@ == old(self)@.taken(core),
            final(self).layouts() == old(self).layouts(),
    {
        let mut me = self.sides[core.index()];
        let pending = me.pending;
        me.pending = IpcIrqs::default();
        self.sides[core.index()] = me;
        assert(self@ =~= old(self)@.taken(core));
        pending
    }

    /// `IPCSYNC` as this core reads it.
    pub fn read_sync(&self, core: Core) -> (r: u32)
        ensures
            r == self@.sync_word(core),
    {
        let me = self.sides[core.index()];
        let them = self.sides[core.other().index()];
        (them.sync_out as u32) | ((me.sync_out as u32) << 8u32) | (if me.sync_irq_enable {
            0x4000
        } else {
            0
        })
    }

    /// Write `IPCSYNC`. Bit 13 raises an interrupt on the other core if that core has enabled one.
    pub fn write_sync(&mut self, core: Core, value: u32)
        ensures
            old(self).wf() ==> final(self).wf(),
            final(self)@ == old(self)@.sync_written(core, value),
            final(self).layouts() == old(self).layouts(),
    {
        let mut me = self.sides[core.index()];
        me.sync_out = (value / 0x100 % 16) as u8;
        me.sync_irq_enable = value & 0x4000 != 0;
        self.sides[core.index()] = me;
        if value & 0x2000 != 0 {
            let mut them = self.sides[core.other().index()];
            if them.sync_irq_enable {
                them.pending.sync = true;
                self.sides[core.other().index()] = them;
            }
        }
        assert(self@ =~= old(self)@.sync_written(core, value));
    }

    /// `IPCFIFOCNT` as this core reads it.
    pub fn read_control(&self, core: Core) -> (r: u16)
        ensures
            r == self@.control_word(core),
    {
        let me = self.sides[core.index()];
        let send = &self.queues[core.other().index()];
        let recv = &self.queues[core.index()];
        let mut word: u16 = 0;
        if send.is_empty() {
            word = word + 0x0001;
        }
        if send.is_full() {
            word = word + 0x0002;
        }
        if me.send_empty_irq {
            word = word + 0x0004;
        }
        if recv.is_empty() {
            word = word + 0x0100;
        }
        if recv.is_full() {
            word = word + 0x0200;
        }
        if me.recv_not_empty_irq {
            word = word + 0x0400;
        }
        if me.error {
            word = word + 0x4000;
        }
        if me.fifo_enable {
            word = word + 0x8000;
        }
        word
    }

    /// Write `IPCFIFOCNT`.
    ///
    /// Enabling either interrupt while its condition already holds raises it at once, which is how
    /// software arms the send-empty interrupt at all.
    #[verifier::rlimit(30)]
    pub fn write_control(&mut self, core: Core, value: u16)
        ensures
            old(self).wf() ==> final(self).wf(),
            final(self)@ == old(self)@.control_written(core, value),
            final(self).layouts() == (if value & 0x0008 != 0 {
                old(self).layouts().update(
                    core.other().index() as int,
                    old(self).layout(core.other()).cleared(),
                )
            } else {
                old(self).layouts()
            }),
    {
        let send_irq = value & 0x0004 != 0;
        let recv_irq = value & 0x0400 != 0;
        if value & 0x0008 != 0 {
            let mut queue = self.queues[core.other().index()];
            queue.clear();
            self.queues[core.other().index()] = queue;
        }
        let send_empty = self.queues[core.other().index()].is_empty();
        let recv_has_data = !self.queues[core.index()].is_empty();
        let mut me = self.sides[core.index()];
        // Rising edge only: writing the register again with the bit already set does not raise.
        if send_irq && !me.send_empty_irq && send_empty {
            me.pending.send_empty = true;
        }
        if recv_irq && !me.recv_not_empty_irq && recv_has_data {
            me.pending.recv_not_empty = true;
        }
        me.send_empty_irq = send_irq;
        me.recv_not_empty_irq = recv_irq;
        me.fifo_enable = value & 0x8000 != 0;
        if value & 0x4000 != 0 {
            me.error = false;
        }
        self.sides[core.index()] = me;
        assert(self@ =~= old(self)@.control_written(core, value));
    }

    /// Push a word into this core's send FIFO, which is the other core's receive FIFO.
    pub fn send(&mut self, core: Core, word: u32)
        requires
            old(self)@.side(core).fifo_enable ==> old(self).layout(core.other()).len < 255,
        ensures
            old(self).wf() ==> final(self).wf(),
            old(self).layout(core.other()).len <= 16 ==> final(self)@ == old(self)@.sent(core, word),
            final(self)@.sides == old(self)@.sent(core, word).sides,
            final(self).layouts() == (if old(self)@.side(core).fifo_enable {
                old(self).layouts().update(
                    core.other().index() as int,
                    old(self).layout(core.other()).pushed(word),
                )
            } else {
                old(self).layouts()
            }),
    {
        if !self.sides[core.index()].fifo_enable {
            return;
        }
        let mut queue = self.queues[core.other().index()];
        let was_empty = queue.is_empty();
        if !queue.push(word) {
            let mut me = self.sides[core.index()];
            me.error = true;
            self.sides[core.index()] = me;
            assert(self@ =~= old(self)@.sent(core, word));
            return;
        }
        self.queues[core.other().index()] = queue;
        if was_empty {
            let mut them = self.sides[core.other().index()];
            if them.recv_not_empty_irq {
                them.pending.recv_not_empty = true;
                self.sides[core.other().index()] = them;
            }
        }
        assert(self@.sides =~= old(self)@.sent(core, word).sides);
        assert(old(self).layout(core.other()).len <= 16 ==> self@ =~= old(self)@.sent(core, word));
    }

    /// Pop a word from this core's receive FIFO.
    ///
    /// Reading an empty FIFO sets the error flag and returns the last word that was read.
    pub fn receive(&mut self, core: Core) -> (r: u32)
        requires
            old(self)@.side(core).fifo_enable && old(self)@.queue(core).len() > 0 ==> old(
                self,
            ).layout(core).head < 16,
        ensures
            old(self).wf() ==> final(self).wf(),
            r == old(self)@.reply(core),
            final(self)@ == old(self)@.received(core),
            final(self).layouts() == (if old(self)@.side(core).fifo_enable {
                old(self).layouts().update(
                    core.index() as int,
                    old(self).layout(core).popped(),
                )
            } else {
                old(self).layouts()
            }),
    {
        let mut me = self.sides[core.index()];
        if !me.fifo_enable {
            return me.last_recv;
        }
        let mut queue = self.queues[core.index()];
        match queue.pop() {
            Some(word) => {
                me.last_recv = word;
                self.sides[core.index()] = me;
                self.queues[core.index()] = queue;
                if queue.is_empty() {
                    let mut them = self.sides[core.other().index()];
                    if them.send_empty_irq {
                        them.pending.send_empty = true;
                        self.sides[core.other().index()] = them;
                    }
                }
                assert(self@ =~= old(self)@.received(core));
                word
            },
            None => {
                me.error = true;
                self.sides[core.index()] = me;
                assert(self@ =~= old(self)@.received(core));
                me.last_recv
            },
        }
    }

    /// The word at the head of this core's receive FIFO, without popping.
    pub fn peek_receive(&self, core: Core) -> (r: u32)
        requires
            self@.queue(core).len() > 0 ==> self.layout(core).head < 16,
        ensures
            r == (if self@.queue(core).len() == 0 {
                self@.side(core).last_recv
            } else {
                self@.queue(core)[0]
            }),
    {
        let queue = &self.queues[core.index()];
        if queue.is_empty() {
            self.sides[core.index()].last_recv
        } else {
            queue.words[queue.head as usize]
        }
    }

    /// How many words are waiting for this core.
    pub fn receive_len(&self, core: Core) -> (r: usize)
        ensures
            r == self@.queue(core).len(),
    {
        self.queues[core.index()].len as usize
    }

    pub fn save(&self, w: &mut StateWriter)
        ensures
            state::continues(old(w)@, final(w)@),
            final(w)@.len() == old(w)@.len() + saved_size(),
            self@.sides[0].restored(final(w)@, final(w)@.len() as int, old(w)@.len() as int)
                == self@.sides[0],
            self@.sides[1].restored(final(w)@, final(w)@.len() as int, old(w)@.len() as int + 13)
                == self@.sides[1],
            layout_at(final(w)@, old(w)@.len() as int + 26) == self.layouts()[0],
            layout_at(final(w)@, old(w)@.len() as int + 92) == self.layouts()[1],
            self.wf() ==> self@.encoded_at(final(w)@, old(w)@.len() as int),
    {
        let ghost at = w@.len() as int;
        self.sides[0].save(w);
        let ghost one = w@;
        self.sides[1].save(w);
        let ghost two = w@;
        self.queues[0].save(w);
        let ghost three = w@;
        self.queues[1].save(w);
        proof {
            lemma_side_kept(one, w@, at, self.sides[0]);
            lemma_side_kept(two, w@, at + 13, self.sides[1]);
            lemma_queue_kept(three, w@, at + 26);
            assert(layout_at(w@, at + 26) == self.queues[0].layout());
            assert(layout_at(w@, at + 92) == self.queues[1].layout());
        }
    }

    /// Read a state back. A ring whose indices fall outside it is malformed: what was read by then
    /// stays, that ring and its indices included.
    pub fn load(&mut self, r: &mut StateReader) -> (result: Result<(), StateError>)
        ensures
            final(self)@ == old(self)@.restored(
                old(self).layouts(),
                old(r).data(),
                old(r).limit(),
                old(r).pos() as int,
            ),
            final(self).layouts() == rings_restored(
                old(self).layouts(),
                old(r).data(),
                old(r).limit(),
                old(r).pos() as int,
            ),
            result is Ok ==> final(self).wf(),
            final(r).data() == old(r).data(),
            final(r).error() == load_error(*old(r)),
            final(r).error() is None ==> final(r).pos() == old(r).pos() + saved_size(),
            result == state::verdict(*final(r)),
    {
        let ghost rings = self.layouts();
        let mut arm9 = self.sides[0];
        arm9.load(r);
        let mut arm7 = self.sides[1];
        arm7.load(r);
        let mut first = self.queues[0];
        first.load(r);
        let mut second = self.queues[1];
        second.load(r);
        self.sides[0] = arm9;
        self.sides[1] = arm7;
        self.queues[0] = first;
        self.queues[1] = second;
        proof {
            let d = old(r).data();
            let at = old(r).pos() as int;
            assert(self.layouts()[0] =~= rings_restored(rings, d, old(r).limit(), at)[0]);
            assert(self.layouts()[1] =~= rings_restored(rings, d, old(r).limit(), at)[1]);
            assert(self.layouts() =~= rings_restored(rings, d, old(r).limit(), at));
            assert(self@ =~= old(self)@.restored(rings, d, old(r).limit(), at));
        }
        r.status()
    }
}

impl Default for Ipc {
    fn default() -> (r: Self)
        ensures
            r.wf(),
            r@ == IpcState::initial(),
            r.layouts() == seq![Layout::initial(), Layout::initial()],
    {
        Ipc::new()
    }
}

/// A state that was saved comes back whole, down to the layout of its rings, whatever it is read
/// into.
#[verifier::rlimit(30)]
pub proof fn law_save_then_load(
    saved: IpcState,
    before: IpcState,
    rings: Seq<Layout>,
    d: Seq<u8>,
    at: int,
)
    requires
        0 <= at,
        saved.wf(),
        before.sides.len() == 2,
        rings.len() == 2,
        rings[0].words.len() == 16,
        rings[1].words.len() == 16,
        saved.encoded_at(d, at),
    ensures
        before.restored(rings, d, d.len() as int, at) == saved,
        rings_restored(rings, d, d.len() as int, at) == seq![
            layout_at(d, at + 26),
            layout_at(d, at + 92),
        ],
{
    let read = rings_restored(rings, d, d.len() as int, at);
    assert(read[0] =~= layout_at(d, at + 26));
    assert(read[1] =~= layout_at(d, at + 92));
    assert(before.restored(rings, d, d.len() as int, at) =~= saved);
}

/// A ring that is refused has been read all the same: its words and indices are the stream's, and
/// the ring behind it is left alone.
pub proof fn law_a_refused_ring_has_been_read(rings: Seq<Layout>, d: Seq<u8>, at: int)
    requires
        0 <= at,
        at + 92 <= d.len(),
        !queue_fits(d, at + 26),
        rings.len() == 2,
        rings[0].words.len() == 16,
    ensures
        rings_restored(rings, d, d.len() as int, at) == seq![layout_at(d, at + 26), rings[1]],
{
    assert(rings_restored(rings, d, d.len() as int, at)[0] =~= layout_at(d, at + 26));
}

/// A word that one core sends into an empty queue is the word that the other receives, and the
/// queue is empty again.
pub proof fn law_sent_words_arrive(s: IpcState, core: Core, word: u32)
    requires
        s.wf(),
        s.side(core).fifo_enable,
        s.side(core.other()).fifo_enable,
        s.queue(core.other()).len() == 0,
    ensures
        s.sent(core, word).reply(core.other()) == word,
        s.sent(core, word).received(core.other()).queue(core.other()).len() == 0,
{
}

/// First in, first out: what is already queued comes out before what is sent now, and sending never
/// touches the other direction.
pub proof fn law_first_in_first_out(s: IpcState, core: Core, word: u32)
    requires
        s.wf(),
        s.side(core).fifo_enable,
        s.queue(core.other()).len() < 16,
    ensures
        s.sent(core, word).queue(core.other()) == s.queue(core.other()).push(word),
        s.sent(core, word).queue(core) == s.queue(core),
        s.queue(core.other()).len() > 0 && s.side(core.other()).fifo_enable ==> s.sent(
            core,
            word,
        ).reply(core.other()) == s.reply(core.other()),
{
}

/// A full queue drops the new word, not the oldest, and the sender is told.
pub proof fn law_a_full_queue_drops_the_new_word(s: IpcState, core: Core, word: u32)
    requires
        s.wf(),
        s.side(core).fifo_enable,
        s.queue(core.other()).len() == 16,
    ensures
        s.sent(core, word).queues == s.queues,
        s.sent(core, word).side(core).error,
{
}

/// The receive interrupt is an edge: a word sent into a queue that already holds one raises
/// nothing.
pub proof fn law_a_second_word_is_not_a_second_edge(s: IpcState, core: Core, word: u32)
    requires
        s.wf(),
        0 < s.queue(core.other()).len() < 16,
    ensures
        s.sent(core, word).side(core.other()) == s.side(core.other()),
{
}

/// The send-empty interrupt is an edge: only taking the last word raises it.
pub proof fn law_only_the_last_word_raises_send_empty(s: IpcState, core: Core)
    requires
        s.wf(),
        s.queue(core).len() != 1,
    ensures
        s.received(core).side(core.other()) == s.side(core.other()),
{
}

/// Arming an interrupt that is already armed raises nothing.
pub proof fn law_arming_twice_raises_once(s: IpcState, core: Core, value: u16)
    requires
        s.wf(),
    ensures
        s.control_written(core, value).taken(core).control_written(core, value & 0xBFF7).side(
            core,
        ).pending == no_irqs(),
{
    assert((value & 0xBFF7) & 0x0004 == value & 0x0004 && (value & 0xBFF7) & 0x0400 == value
        & 0x0400) by (bit_vector);
}

/// Every operation keeps the queues within their depth.
pub proof fn law_queues_stay_within_depth(s: IpcState, core: Core, word: u32, value: u16)
    requires
        s.wf(),
    ensures
        IpcState::initial().wf(),
        s.sent(core, word).wf(),
        s.received(core).wf(),
        s.taken(core).wf(),
        s.sync_written(core, word).wf(),
        s.control_written(core, value).wf(),
{
}

/// Each core reads the other's nibble low and its own high; the strobe never reads back.
pub proof fn law_nibbles_cross(s: IpcState, core: Core, mine: u32, theirs: u32)
    requires
        s.wf(),
    ensures
        ({
            let after = s.sync_written(core, mine).sync_written(core.other(), theirs);
            let word = after.sync_word(core);
            &&& word % 16 == theirs / 0x100 % 16
            &&& word / 0x100 % 16 == mine / 0x100 % 16
            &&& word & 0x2000 == 0
        }),
{
    let after = s.sync_written(core, mine).sync_written(core.other(), theirs);
    let low = after.side(core.other()).sync_out;
    let high = after.side(core).sync_out;
    let top = if after.side(core).sync_irq_enable { 0x4000u32 } else { 0 };
    let word = after.sync_word(core);
    assert(word % 16 == low && word / 0x100 % 16 == high && word & 0x2000 == 0) by (bit_vector)
        requires
            low < 16,
            high < 16,
            top == 0 || top == 0x4000,
            word == (low as u32) | ((high as u32) << 8u32) | top,
    ;
}

} // verus!
