//! Save states: a flat little-endian byte stream, written field by field and read back in the
//! same order.
//!
//! Reading is sticky. The first thing that goes wrong is remembered, and from then on every
//! field keeps the value it already had.

use vstd::prelude::*;
use crate::bits;
use crate::fault::{Counted, Fault};

verus! {

/// Why a state could not be read back.
#[derive(Clone, Copy, Debug, PartialEq, Eq, Structural)]
pub enum StateError {
    /// The stream ended before the last field.
    UnexpectedEnd,
    /// A field held a value that no running machine can have.
    Malformed(Fault),
}

/// The 16-bit little-endian number at `at`.
pub open spec fn le16(d: Seq<u8>, at: int) -> u16 {
    (d[at] + 0x100 * d[at + 1]) as u16
}

/// The 32-bit little-endian number at `at`.
pub open spec fn le32(d: Seq<u8>, at: int) -> u32 {
    (d[at] + 0x100 * d[at + 1] + 0x1_0000 * d[at + 2] + 0x100_0000 * d[at + 3]) as u32
}

/// The 64-bit little-endian number at `at`.
pub open spec fn le64(d: Seq<u8>, at: int) -> u64 {
    (le32(d, at) + 0x1_0000_0000 * le32(d, at + 4)) as u64
}

/// What a byte field becomes: the stream's value where the stream reaches, else what it was.
pub open spec fn or8(d: Seq<u8>, limit: int, at: int, current: u8) -> u8 {
    if at + 1 <= limit { d[at] } else { current }
}

/// What a flag becomes. Any byte but zero is true.
pub open spec fn or_bool(d: Seq<u8>, limit: int, at: int, current: bool) -> bool {
    if at + 1 <= limit { d[at] != 0 } else { current }
}

/// What a 16-bit field becomes.
pub open spec fn or16(d: Seq<u8>, limit: int, at: int, current: u16) -> u16 {
    if at + 2 <= limit { le16(d, at) } else { current }
}

/// What a signed 16-bit field becomes.
pub open spec fn or_i16(d: Seq<u8>, limit: int, at: int, current: i16) -> i16 {
    if at + 2 <= limit { le16(d, at) as i16 } else { current }
}

/// What a 32-bit field becomes.
pub open spec fn or32(d: Seq<u8>, limit: int, at: int, current: u32) -> u32 {
    if at + 4 <= limit { le32(d, at) } else { current }
}

/// What a signed 32-bit field becomes.
pub open spec fn or_i32(d: Seq<u8>, limit: int, at: int, current: i32) -> i32 {
    if at + 4 <= limit { le32(d, at) as i32 } else { current }
}

/// What a 64-bit field becomes.
pub open spec fn or64(d: Seq<u8>, limit: int, at: int, current: u64) -> u64 {
    if at + 8 <= limit { le64(d, at) } else { current }
}

/// What a run of bytes becomes, each only as far as the stream reaches.
pub open spec fn bytes_or(d: Seq<u8>, limit: int, at: int, current: Seq<u8>) -> Seq<u8> {
    Seq::new(current.len(), |i: int| or8(d, limit, at + i, current[i]))
}

/// What a run of halfwords becomes, each only as far as the stream reaches.
pub open spec fn halves_or(d: Seq<u8>, limit: int, at: int, current: Seq<u16>) -> Seq<u16> {
    Seq::new(current.len(), |i: int| or16(d, limit, at + 2 * i, current[i]))
}

/// What a run of words becomes, each only as far as the stream reaches.
pub open spec fn words_or(d: Seq<u8>, limit: int, at: int, current: Seq<u32>) -> Seq<u32> {
    Seq::new(current.len(), |i: int| or32(d, limit, at + 4 * i, current[i]))
}

/// A counted run of elements as read from a stream: what came out, where reading stopped, and
/// why.
#[verifier::ext_equal]
pub struct Run<T> {
    pub list: Seq<T>,
    pub at: int,
    pub error: Option<StateError>,
}

/// A 64-bit count and that many bytes. A count above the most there can be is rejected and leaves `current`; a
/// stream that ends early leaves what came before the end.
pub open spec fn counted_bytes(d: Seq<u8>, at: int, what: Counted, current: Seq<u8>) -> Run<u8> {
    if at + 8 > d.len() {
        Run { list: current, at, error: Some(StateError::UnexpectedEnd) }
    } else {
        let n = le64(d, at);
        let there = (d.len() - at - 8);
        if n > what.most() {
            Run { list: current, at, error: Some(StateError::Malformed(Fault::TooMany(what, n))) }
        } else if there < n {
            Run {
                list: Seq::new(there as nat, |i: int| d[at + 8 + i]),
                at,
                error: Some(StateError::UnexpectedEnd),
            }
        } else {
            Run { list: Seq::new(n as nat, |i: int| d[at + 8 + i]), at: at + 8 + n, error: None }
        }
    }
}

/// A 64-bit count and that many words. A count above the most there can be is rejected and leaves `current`; a
/// stream that ends early leaves what came before the end.
pub open spec fn counted_words(d: Seq<u8>, at: int, what: Counted, current: Seq<u32>) -> Run<u32> {
    if at + 8 > d.len() {
        Run { list: current, at, error: Some(StateError::UnexpectedEnd) }
    } else {
        let n = le64(d, at);
        let there = (d.len() - at - 8) / 4;
        if n > what.most() {
            Run { list: current, at, error: Some(StateError::Malformed(Fault::TooMany(what, n))) }
        } else if there < n {
            Run {
                list: Seq::new(there as nat, |i: int| le32(d, at + 8 + 4 * i)),
                at,
                error: Some(StateError::UnexpectedEnd),
            }
        } else {
            Run { list: Seq::new(n as nat, |i: int| le32(d, at + 8 + 4 * i)), at: at + 8 + 4 * n, error: None }
        }
    }
}

/// `longer` is `shorter` with something behind it.
pub open spec fn continues(shorter: Seq<u8>, longer: Seq<u8>) -> bool {
    &&& shorter.len() <= longer.len()
    &&& forall|i: int| 0 <= i < shorter.len() ==> #[trigger] longer[i] == shorter[i]
}

/// Appending to a stream leaves the bytes in it alone.
pub proof fn lemma_bytes_kept(shorter: Seq<u8>, longer: Seq<u8>, at: int, values: Seq<u8>)
    requires
        continues(shorter, longer),
        0 <= at,
        at + values.len() <= shorter.len(),
        bytes_or(shorter, shorter.len() as int, at, values) == values,
    ensures
        bytes_or(longer, longer.len() as int, at, values) == values,
{
    assert forall|i: int| 0 <= i < values.len() implies bytes_or(
        longer,
        longer.len() as int,
        at,
        values,
    )[i] == #[trigger] values[i] by {
        assert(bytes_or(shorter, shorter.len() as int, at, values)[i] == values[i]);
    }
    assert(bytes_or(longer, longer.len() as int, at, values) =~= values);
}

/// A stream that reaches far enough decides the bytes alone.
pub proof fn lemma_bytes_decided(d: Seq<u8>, at: int, a: Seq<u8>, b: Seq<u8>)
    requires
        a.len() == b.len(),
        at + a.len() <= d.len(),
    ensures
        bytes_or(d, d.len() as int, at, a) == bytes_or(d, d.len() as int, at, b),
{
    assert(bytes_or(d, d.len() as int, at, a) =~= bytes_or(d, d.len() as int, at, b));
}

/// Appending to a stream leaves the halfwords in it alone.
pub proof fn lemma_halves_kept(shorter: Seq<u8>, longer: Seq<u8>, at: int, values: Seq<u16>)
    requires
        continues(shorter, longer),
        0 <= at,
        at + 2 * values.len() <= shorter.len(),
        halves_or(shorter, shorter.len() as int, at, values) == values,
    ensures
        halves_or(longer, longer.len() as int, at, values) == values,
{
    assert forall|i: int| 0 <= i < values.len() implies halves_or(
        longer,
        longer.len() as int,
        at,
        values,
    )[i] == #[trigger] values[i] by {
        assert(halves_or(shorter, shorter.len() as int, at, values)[i] == values[i]);
    }
    assert(halves_or(longer, longer.len() as int, at, values) =~= values);
}

/// A stream that reaches far enough decides the halfwords alone.
pub proof fn lemma_halves_decided(d: Seq<u8>, at: int, a: Seq<u16>, b: Seq<u16>)
    requires
        a.len() == b.len(),
        at + 2 * a.len() <= d.len(),
    ensures
        halves_or(d, d.len() as int, at, a) == halves_or(d, d.len() as int, at, b),
{
    assert(halves_or(d, d.len() as int, at, a) =~= halves_or(d, d.len() as int, at, b));
}

/// Appending to a stream leaves the words in it alone.
pub proof fn lemma_words_kept(shorter: Seq<u8>, longer: Seq<u8>, at: int, values: Seq<u32>)
    requires
        continues(shorter, longer),
        0 <= at,
        at + 4 * values.len() <= shorter.len(),
        words_or(shorter, shorter.len() as int, at, values) == values,
    ensures
        words_or(longer, longer.len() as int, at, values) == values,
{
    assert forall|i: int| 0 <= i < values.len() implies words_or(
        longer,
        longer.len() as int,
        at,
        values,
    )[i] == #[trigger] values[i] by {
        assert(words_or(shorter, shorter.len() as int, at, values)[i] == values[i]);
    }
    assert(words_or(longer, longer.len() as int, at, values) =~= values);
}

/// A stream that reaches far enough decides the words alone.
pub proof fn lemma_words_decided(d: Seq<u8>, at: int, a: Seq<u32>, b: Seq<u32>)
    requires
        a.len() == b.len(),
        at + 4 * a.len() <= d.len(),
    ensures
        words_or(d, d.len() as int, at, a) == words_or(d, d.len() as int, at, b),
{
    assert(words_or(d, d.len() as int, at, a) =~= words_or(d, d.len() as int, at, b));
}

/// Appending to a stream leaves a whole counted run of bytes in it alone.
pub proof fn lemma_counted_bytes_kept(
    shorter: Seq<u8>,
    longer: Seq<u8>,
    at: int,
    what: Counted,
    current: Seq<u8>,
)
    requires
        continues(shorter, longer),
        0 <= at,
        counted_bytes(shorter, at, what, current).error is None,
    ensures
        counted_bytes(longer, at, what, current) == counted_bytes(shorter, at, what, current),
{
    assert(le64(longer, at) == le64(shorter, at));
    assert(counted_bytes(longer, at, what, current).list =~= counted_bytes(
        shorter,
        at,
        what,
        current,
    ).list);
}

/// Appending to a stream leaves a whole counted run of words in it alone.
pub proof fn lemma_counted_words_kept(
    shorter: Seq<u8>,
    longer: Seq<u8>,
    at: int,
    what: Counted,
    current: Seq<u32>,
)
    requires
        continues(shorter, longer),
        0 <= at,
        counted_words(shorter, at, what, current).error is None,
    ensures
        counted_words(longer, at, what, current) == counted_words(shorter, at, what, current),
{
    assert(le64(longer, at) == le64(shorter, at));
    assert(counted_words(longer, at, what, current).list =~= counted_words(
        shorter,
        at,
        what,
        current,
    ).list);
}

/// Collects the bytes of a state.
#[derive(Debug)]
pub struct StateWriter {
    bytes: Vec<u8>,
}

impl View for StateWriter {
    type V = Seq<u8>;

    closed spec fn view(&self) -> Seq<u8> {
        self.bytes@
    }
}

impl StateWriter {
    pub fn new() -> (r: StateWriter)
        ensures
            r@ == Seq::<u8>::empty(),
    {
        StateWriter { bytes: Vec::new() }
    }

    /// The bytes written so far.
    pub fn into_bytes(self) -> (r: Vec<u8>)
        ensures
            r@ == self@,
    {
        self.bytes
    }

    pub fn write_u8(&mut self, value: u8)
        ensures
            continues(old(self)@, final(self)@),
            final(self)@.len() == old(self)@.len() + 1,
            final(self)@[old(self)@.len() as int] == value,
    {
        self.bytes.push(value);
    }

    pub fn write_bool(&mut self, value: bool)
        ensures
            continues(old(self)@, final(self)@),
            final(self)@.len() == old(self)@.len() + 1,
            final(self)@[old(self)@.len() as int] == (if value {
                1u8
            } else {
                0
            }),
    {
        self.write_u8(if value { 1 } else { 0 });
    }

    pub fn write_u16(&mut self, value: u16)
        ensures
            continues(old(self)@, final(self)@),
            final(self)@.len() == old(self)@.len() + 2,
            le16(final(self)@, old(self)@.len() as int) == value,
    {
        self.write_u8((value % 0x100) as u8);
        self.write_u8((value / 0x100) as u8);
    }

    pub fn write_i16(&mut self, value: i16)
        ensures
            continues(old(self)@, final(self)@),
            final(self)@.len() == old(self)@.len() + 2,
            le16(final(self)@, old(self)@.len() as int) as i16 == value,
    {
        proof {
            bits::lemma_signed_round_trips(value, 0, 0);
        }
        self.write_u16(value as u16);
    }

    pub fn write_u32(&mut self, value: u32)
        ensures
            continues(old(self)@, final(self)@),
            final(self)@.len() == old(self)@.len() + 4,
            le32(final(self)@, old(self)@.len() as int) == value,
    {
        self.write_u8((value % 0x100) as u8);
        self.write_u8((value / 0x100 % 0x100) as u8);
        self.write_u8((value / 0x1_0000 % 0x100) as u8);
        self.write_u8((value / 0x100_0000) as u8);
    }

    pub fn write_i32(&mut self, value: i32)
        ensures
            continues(old(self)@, final(self)@),
            final(self)@.len() == old(self)@.len() + 4,
            le32(final(self)@, old(self)@.len() as int) as i32 == value,
    {
        proof {
            bits::lemma_signed_round_trips(0, value, 0);
        }
        self.write_u32(value as u32);
    }

    pub fn write_u64(&mut self, value: u64)
        ensures
            continues(old(self)@, final(self)@),
            final(self)@.len() == old(self)@.len() + 8,
            le64(final(self)@, old(self)@.len() as int) == value,
    {
        let ghost before = self@;
        self.write_u32((value % 0x1_0000_0000) as u32);
        let ghost middle = self@;
        self.write_u32((value / 0x1_0000_0000) as u32);
        assert(le32(self@, before.len() as int) == le32(middle, before.len() as int));
    }

    /// Write a run of bytes in order.
    pub fn write_bytes(&mut self, values: &[u8])
        ensures
            continues(old(self)@, final(self)@),
            final(self)@.len() == old(self)@.len() + values@.len(),
            bytes_or(
                final(self)@,
                final(self)@.len() as int,
                old(self)@.len() as int,
                values@,
            ) == values@,
    {
        let ghost start = self@;
        for i in 0..values.len()
            invariant
                continues(start, self@),
                self@.len() == start.len() + i,
                forall|j: int|
                    0 <= j < i ==> or8(
                        self@,
                        self@.len() as int,
                        start.len() + j,
                        0,
                    ) == #[trigger] values@[j],
        {
            self.write_u8(values[i]);
        }
        assert(bytes_or(self@, self@.len() as int, start.len() as int, values@) =~= values@) by {
            assert forall|j: int| 0 <= j < values@.len() implies bytes_or(
                self@,
                self@.len() as int,
                start.len() as int,
                values@,
            )[j] == #[trigger] values@[j] by {}
        }
    }

    /// Write a run of halfwords in order.
    pub fn write_halves(&mut self, values: &[u16])
        ensures
            continues(old(self)@, final(self)@),
            final(self)@.len() == old(self)@.len() + 2 * values@.len(),
            halves_or(
                final(self)@,
                final(self)@.len() as int,
                old(self)@.len() as int,
                values@,
            ) == values@,
    {
        let ghost start = self@;
        for i in 0..values.len()
            invariant
                continues(start, self@),
                self@.len() == start.len() + 2 * i,
                forall|j: int|
                    0 <= j < i ==> or16(
                        self@,
                        self@.len() as int,
                        start.len() + 2 * j,
                        0,
                    ) == #[trigger] values@[j],
        {
            self.write_u16(values[i]);
        }
        assert(halves_or(self@, self@.len() as int, start.len() as int, values@) =~= values@) by {
            assert forall|j: int| 0 <= j < values@.len() implies halves_or(
                self@,
                self@.len() as int,
                start.len() as int,
                values@,
            )[j] == #[trigger] values@[j] by {}
        }
    }

    /// Write a run of words in order.
    pub fn write_words(&mut self, values: &[u32])
        ensures
            continues(old(self)@, final(self)@),
            final(self)@.len() == old(self)@.len() + 4 * values@.len(),
            words_or(
                final(self)@,
                final(self)@.len() as int,
                old(self)@.len() as int,
                values@,
            ) == values@,
    {
        let ghost start = self@;
        for i in 0..values.len()
            invariant
                continues(start, self@),
                self@.len() == start.len() + 4 * i,
                forall|j: int|
                    0 <= j < i ==> or32(
                        self@,
                        self@.len() as int,
                        start.len() + 4 * j,
                        0,
                    ) == #[trigger] values@[j],
        {
            self.write_u32(values[i]);
        }
        assert(words_or(self@, self@.len() as int, start.len() as int, values@) =~= values@) by {
            assert forall|j: int| 0 <= j < values@.len() implies words_or(
                self@,
                self@.len() as int,
                start.len() as int,
                values@,
            )[j] == #[trigger] values@[j] by {}
        }
    }

    /// Write a count and that many bytes.
    pub fn write_counted_bytes(&mut self, values: &[u8])
        ensures
            continues(old(self)@, final(self)@),
            final(self)@.len() == old(self)@.len() + 8 + values@.len(),
            forall|what: Counted, current: Seq<u8>|
                values@.len() <= what.most() ==> #[trigger] counted_bytes(
                    final(self)@,
                    old(self)@.len() as int,
                    what,
                    current,
                ) == (Run { list: values@, at: final(self)@.len() as int, error: None }),
    {
        let ghost start = self@;
        self.write_u64(values.len() as u64);
        let ghost counted = self@;
        self.write_bytes(values);
        assert(le64(self@, start.len() as int) == le64(counted, start.len() as int));
        assert forall|what: Counted, current: Seq<u8>| values@.len() <= what.most() implies #[trigger] counted_bytes(
            self@,
            start.len() as int,
            what,
            current,
        ) == (Run { list: values@, at: self@.len() as int, error: None }) by {
            let run = counted_bytes(self@, start.len() as int, what, current);
            assert forall|i: int| 0 <= i < values@.len() implies run.list[i] == #[trigger] values@[i] by {
                assert(bytes_or(self@, self@.len() as int, counted.len() as int, values@)[i] == values@[i]);
            }
            assert(run.list =~= values@);
        }
    }

    /// Write a count and that many words.
    pub fn write_counted_words(&mut self, values: &[u32])
        ensures
            continues(old(self)@, final(self)@),
            final(self)@.len() == old(self)@.len() + 8 + 4 * values@.len(),
            le64(final(self)@, old(self)@.len() as int) == values@.len(),
            words_or(
                final(self)@,
                final(self)@.len() as int,
                old(self)@.len() as int + 8,
                values@,
            ) == values@,
            forall|what: Counted, current: Seq<u32>|
                values@.len() <= what.most() ==> #[trigger] counted_words(
                    final(self)@,
                    old(self)@.len() as int,
                    what,
                    current,
                ) == (Run { list: values@, at: final(self)@.len() as int, error: None }),
    {
        let ghost start = self@;
        self.write_u64(values.len() as u64);
        let ghost counted = self@;
        self.write_words(values);
        assert(le64(self@, start.len() as int) == le64(counted, start.len() as int));
        assert forall|what: Counted, current: Seq<u32>| values@.len() <= what.most() implies #[trigger] counted_words(
            self@,
            start.len() as int,
            what,
            current,
        ) == (Run { list: values@, at: self@.len() as int, error: None }) by {
            let run = counted_words(self@, start.len() as int, what, current);
            assert forall|i: int| 0 <= i < values@.len() implies run.list[i] == #[trigger] values@[i] by {
                assert(words_or(self@, self@.len() as int, counted.len() as int, values@)[i] == values@[i]);
            }
            assert(run.list =~= values@);
        }
    }
}

/// Walks the bytes of a state.
#[derive(Debug)]
pub struct StateReader {
    bytes: Vec<u8>,
    position: usize,
    failure: Option<StateError>,
}

/// `after` is `before` once `n` more bytes were asked for.
pub open spec fn advanced(before: StateReader, after: StateReader, n: int) -> bool {
    &&& after.data() == before.data()
    &&& if n == 0 {
        &&& after.pos() == before.pos()
        &&& after.error() == before.error()
    } else if before.pos() + n <= before.limit() {
        &&& after.pos() == before.pos() + n
        &&& after.error() is None
    } else {
        after.error() == Some(before.end_error())
    }
}

/// The verdict that a reader's state stands for.
pub open spec fn verdict(r: StateReader) -> Result<(), StateError> {
    match r.error() {
        None => Ok(()),
        Some(e) => Err(e),
    }
}

impl StateReader {
    /// The whole stream.
    pub closed spec fn data(&self) -> Seq<u8> {
        self.bytes@
    }

    /// How far reading has come.
    pub closed spec fn pos(&self) -> nat {
        self.position as nat
    }

    /// What went wrong first, if anything has.
    pub closed spec fn error(&self) -> Option<StateError> {
        self.failure
    }

    /// The first offset that can no longer be read. Nothing can once reading has failed.
    pub open spec fn limit(&self) -> int {
        if self.error() is None {
            self.data().len() as int
        } else {
            -1
        }
    }

    /// The error a reader is left with by a read that it cannot serve.
    pub open spec fn end_error(&self) -> StateError {
        match self.error() {
            None => StateError::UnexpectedEnd,
            Some(e) => e,
        }
    }

    pub fn new(bytes: Vec<u8>) -> (r: StateReader)
        ensures
            r.data() == bytes@,
            r.pos() == 0,
            r.error() is None,
    {
        StateReader { bytes, position: 0, failure: None }
    }

    /// Whether everything asked for so far was there.
    pub fn status(&self) -> (r: Result<(), StateError>)
        ensures
            r == verdict(*self),
    {
        match self.failure {
            None => Ok(()),
            Some(e) => Err(e),
        }
    }

    /// Whether reading has failed.
    pub fn failed(&self) -> (r: bool)
        ensures
            r == (self.error() is Some),
    {
        match self.failure {
            None => false,
            Some(_) => true,
        }
    }

    /// Reject the stream for what it holds.
    pub fn reject(&mut self, fault: Fault)
        ensures
            final(self).data() == old(self).data(),
            final(self).pos() == old(self).pos(),
            final(self).error() == Some(match old(self).error() {
                None => StateError::Malformed(fault),
                Some(e) => e,
            }),
    {
        match self.failure {
            None => {
                self.failure = Some(StateError::Malformed(fault));
            },
            Some(_) => {},
        }
    }

    /// Whether `count` more bytes are there; if not, that is this reader's failure.
    fn has(&mut self, count: usize) -> (r: bool)
        ensures
            final(self).data() == old(self).data(),
            final(self).pos() == old(self).pos(),
            r == (old(self).pos() + count <= old(self).limit()),
            r ==> final(self).error() is None,
            !r ==> final(self).error() == Some(old(self).end_error()),
            r ==> final(self).position + count <= final(self).bytes.len(),
            r ==> final(self).bytes.len() <= usize::MAX,
    {
        match self.failure {
            None => {
                let there = self.position <= self.bytes.len() && self.bytes.len()
                    - self.position >= count;
                if !there {
                    self.failure = Some(StateError::UnexpectedEnd);
                }
                there
            },
            Some(_) => false,
        }
    }

    pub fn u8_or(&mut self, current: u8) -> (r: u8)
        ensures
            advanced(*old(self), *final(self), 1),
            r == or8(old(self).data(), old(self).limit(), old(self).pos() as int, current),
    {
        if self.has(1) {
            let value = self.bytes[self.position];
            self.position = self.position + 1;
            value
        } else {
            current
        }
    }

    pub fn bool_or(&mut self, current: bool) -> (r: bool)
        ensures
            advanced(*old(self), *final(self), 1),
            r == or_bool(old(self).data(), old(self).limit(), old(self).pos() as int, current),
    {
        self.u8_or(if current { 1 } else { 0 }) != 0
    }

    pub fn u16_or(&mut self, current: u16) -> (r: u16)
        ensures
            advanced(*old(self), *final(self), 2),
            r == or16(old(self).data(), old(self).limit(), old(self).pos() as int, current),
    {
        if self.has(2) {
            let low = self.bytes[self.position];
            let high = self.bytes[self.position + 1];
            self.position = self.position + 2;
            low as u16 + 0x100 * high as u16
        } else {
            current
        }
    }

    pub fn i16_or(&mut self, current: i16) -> (r: i16)
        ensures
            advanced(*old(self), *final(self), 2),
            r == or_i16(old(self).data(), old(self).limit(), old(self).pos() as int, current),
    {
        proof {
            bits::lemma_signed_round_trips(current, 0, 0);
        }
        self.u16_or(current as u16) as i16
    }

    pub fn u32_or(&mut self, current: u32) -> (r: u32)
        ensures
            advanced(*old(self), *final(self), 4),
            r == or32(old(self).data(), old(self).limit(), old(self).pos() as int, current),
    {
        if self.has(4) {
            let at = self.position;
            let value: u32 = self.bytes[at] as u32 + 0x100 * self.bytes[at + 1] as u32 + 0x1_0000
                * self.bytes[at + 2] as u32 + 0x100_0000 * self.bytes[at + 3] as u32;
            self.position = at + 4;
            value
        } else {
            current
        }
    }

    pub fn i32_or(&mut self, current: i32) -> (r: i32)
        ensures
            advanced(*old(self), *final(self), 4),
            r == or_i32(old(self).data(), old(self).limit(), old(self).pos() as int, current),
    {
        proof {
            bits::lemma_signed_round_trips(0, current, 0);
        }
        self.u32_or(current as u32) as i32
    }

    pub fn u64_or(&mut self, current: u64) -> (r: u64)
        ensures
            advanced(*old(self), *final(self), 8),
            r == or64(old(self).data(), old(self).limit(), old(self).pos() as int, current),
    {
        if self.has(8) {
            let low = self.u32_or(0);
            let high = self.u32_or(0);
            low as u64 + 0x1_0000_0000 * high as u64
        } else {
            current
        }
    }

    /// Read a run of bytes in order.
    pub fn read_bytes(&mut self, values: &mut [u8])
        ensures
            advanced(*old(self), *final(self), old(values)@.len() as int),
            final(values)@ == bytes_or(
                old(self).data(),
                old(self).limit(),
                old(self).pos() as int,
                old(values)@,
            ),
    {
        let ghost start = *self;
        let count = values.len();
        for i in 0..count
            invariant
                count == old(values)@.len(),
                values@.len() == count,
                advanced(start, *self, i as int),
                forall|j: int|
                    0 <= j < i ==> #[trigger] values@[j] == or8(
                        start.data(),
                        start.limit(),
                        start.pos() + j,
                        old(values)@[j],
                    ),
                forall|j: int| i <= j < count ==> #[trigger] values@[j] == old(values)@[j],
        {
            let value = self.u8_or(values[i]);
            values[i] = value;
        }
        assert(values@ =~= bytes_or(
            start.data(),
            start.limit(),
            start.pos() as int,
            old(values)@,
        ));
    }

    /// Read a run of halfwords in order.
    pub fn read_halves(&mut self, values: &mut [u16])
        ensures
            advanced(*old(self), *final(self), 2 * old(values)@.len() as int),
            final(values)@ == halves_or(
                old(self).data(),
                old(self).limit(),
                old(self).pos() as int,
                old(values)@,
            ),
    {
        let ghost start = *self;
        let count = values.len();
        for i in 0..count
            invariant
                count == old(values)@.len(),
                values@.len() == count,
                advanced(start, *self, 2 * i),
                forall|j: int|
                    0 <= j < i ==> #[trigger] values@[j] == or16(
                        start.data(),
                        start.limit(),
                        start.pos() + 2 * j,
                        old(values)@[j],
                    ),
                forall|j: int| i <= j < count ==> #[trigger] values@[j] == old(values)@[j],
        {
            let value = self.u16_or(values[i]);
            values[i] = value;
        }
        assert(values@ =~= halves_or(
            start.data(),
            start.limit(),
            start.pos() as int,
            old(values)@,
        ));
    }

    /// Read a run of words in order.
    pub fn read_words(&mut self, values: &mut [u32])
        ensures
            advanced(*old(self), *final(self), 4 * old(values)@.len() as int),
            final(values)@ == words_or(
                old(self).data(),
                old(self).limit(),
                old(self).pos() as int,
                old(values)@,
            ),
    {
        let ghost start = *self;
        let count = values.len();
        for i in 0..count
            invariant
                count == old(values)@.len(),
                values@.len() == count,
                advanced(start, *self, 4 * i),
                forall|j: int|
                    0 <= j < i ==> #[trigger] values@[j] == or32(
                        start.data(),
                        start.limit(),
                        start.pos() + 4 * j,
                        old(values)@[j],
                    ),
                forall|j: int| i <= j < count ==> #[trigger] values@[j] == old(values)@[j],
        {
            let value = self.u32_or(values[i]);
            values[i] = value;
        }
        assert(values@ =~= words_or(
            start.data(),
            start.limit(),
            start.pos() as int,
            old(values)@,
        ));
    }

    /// Read a count and that many bytes over `values`.
    pub fn read_counted_bytes(&mut self, what: Counted, values: &mut Vec<u8>)
        ensures
            final(self).data() == old(self).data(),
            old(self).error() is Some ==> final(values)@ == old(values)@ && final(self).error()
                == old(self).error(),
            old(self).error() is None ==> {
                let run = counted_bytes(
                    old(self).data(),
                    old(self).pos() as int,
                    what,
                    old(values)@,
                );
                &&& final(values)@ == run.list
                &&& final(self).error() == run.error
                &&& run.error is None ==> final(self).pos() == run.at
            },
            old(values)@.len() <= what.most() ==> final(values)@.len() <= what.most(),
    {
        let ghost d = self.data();
        let ghost at = self.pos() as int;
        let count = self.u64_or(0);
        if self.failed() {
            return;
        }
        if count > what.most() {
            self.reject(Fault::TooMany(what, count));
            return;
        }
        let count = count as usize;
        let ghost there = (d.len() - at - 8);
        let ghost counted = *self;
        let mut list: Vec<u8> = Vec::new();
        for i in 0..count
            invariant
                counted.error() is None,
                counted.data() == d,
                counted.pos() == at + 8,
                at + 8 <= d.len(),
                there == (d.len() - at - 8),
                advanced(counted, *self, i as int),
                self.error() is None ==> i <= there && list@ == Seq::new(
                    i as nat,
                    |i: int| d[at + 8 + i],
                ),
                self.error() is Some ==> i > there && list@ == Seq::new(
                    there as nat,
                    |i: int| d[at + 8 + i],
                ),
                list@.len() <= i,
        {
            let value = self.u8_or(0);
            if !self.failed() {
                list.push(value);
                assert(list@ =~= Seq::new((i + 1) as nat, |i: int| d[at + 8 + i]));
            }
        }
        *values = list;
    }

    /// Read a count and that many words over `values`.
    pub fn read_counted_words(&mut self, what: Counted, values: &mut Vec<u32>)
        ensures
            final(self).data() == old(self).data(),
            old(self).error() is Some ==> final(values)@ == old(values)@ && final(self).error()
                == old(self).error(),
            old(self).error() is None ==> {
                let run = counted_words(
                    old(self).data(),
                    old(self).pos() as int,
                    what,
                    old(values)@,
                );
                &&& final(values)@ == run.list
                &&& final(self).error() == run.error
                &&& run.error is None ==> final(self).pos() == run.at
            },
            old(values)@.len() <= what.most() ==> final(values)@.len() <= what.most(),
    {
        let ghost d = self.data();
        let ghost at = self.pos() as int;
        let count = self.u64_or(0);
        if self.failed() {
            return;
        }
        if count > what.most() {
            self.reject(Fault::TooMany(what, count));
            return;
        }
        let count = count as usize;
        let ghost there = (d.len() - at - 8) / 4;
        let ghost counted = *self;
        let mut list: Vec<u32> = Vec::new();
        for i in 0..count
            invariant
                counted.error() is None,
                counted.data() == d,
                counted.pos() == at + 8,
                at + 8 <= d.len(),
                there == (d.len() - at - 8) / 4,
                advanced(counted, *self, 4 * i as int),
                self.error() is None ==> i <= there && list@ == Seq::new(
                    i as nat,
                    |i: int| le32(d, at + 8 + 4 * i),
                ),
                self.error() is Some ==> i > there && list@ == Seq::new(
                    there as nat,
                    |i: int| le32(d, at + 8 + 4 * i),
                ),
                list@.len() <= i,
        {
            let value = self.u32_or(0);
            if !self.failed() {
                list.push(value);
                assert(list@ =~= Seq::new((i + 1) as nat, |i: int| le32(d, at + 8 + 4 * i)));
            }
        }
        *values = list;
    }
}

} // verus!
