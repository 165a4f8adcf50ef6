//! What the decompressors undo, and what the memory calls leave behind.
//!
//! Each format is stated from the encoder's side: memory that holds some data written in the format
//! decodes to the data.

use vstd::prelude::*;
use super::decode::{copied, lz77};
use crate::nds::bus::FlatBus;

verus! {

/// One piece of data written for LZ77: a byte as it is, or a stretch that is already there.
pub enum Piece {
    Literal(u8),
    Copy { length: int, distance: int },
}

impl Piece {
    /// How much data the piece stands for.
    pub open spec fn covers(self) -> int {
        match self {
            Piece::Literal(_) => 1,
            Piece::Copy { length, .. } => length,
        }
    }

    /// How many bytes the piece is written in.
    pub open spec fn written_size(self) -> int {
        match self {
            Piece::Literal(_) => 1,
            Piece::Copy { .. } => 2,
        }
    }

    /// The piece says what `data` holds from `at` on.
    pub open spec fn says(self, data: Seq<u8>, at: int) -> bool {
        match self {
            Piece::Literal(byte) => at < data.len() && data[at] == byte,
            Piece::Copy { length, distance } => {
                &&& 3 <= length <= 18
                &&& 1 <= distance <= 4096
                &&& distance <= at
                &&& at + length <= data.len()
                &&& forall|j: int| at <= j < at + length ==> #[trigger] data[j] == data[j - distance]
            },
        }
    }

    /// Memory holds the piece at `at`: a copy as its length less three in four bits, and its distance
    /// less one in twelve.
    pub open spec fn written_at(self, s: Seq<u8>, at: int) -> bool {
        match self {
            Piece::Literal(byte) => s[at] == byte,
            Piece::Copy { length, distance } => s[at] * 256 + s[at + 1] == (length - 3) * 4096 + (
            distance - 1),
        }
    }
}

/// How much data the first `n` pieces stand for.
pub open spec fn covered_by(pieces: Seq<Piece>, n: nat) -> int
    decreases n,
{
    if n == 0 {
        0
    } else {
        covered_by(pieces, (n - 1) as nat) + pieces[n - 1].covers()
    }
}

/// Where the `n`-th piece is written: behind the ones before it, with a byte of flags ahead of every
/// eight.
pub open spec fn place_of(pieces: Seq<Piece>, n: nat) -> int
    decreases n,
{
    if n == 0 {
        1
    } else {
        place_of(pieces, (n - 1) as nat) + pieces[n - 1].written_size() + (if n % 8 == 0 {
            1int
        } else {
            0
        })
    }
}

/// Two to the seventh less `n`.
pub open spec fn flag_weight(n: int) -> int {
    if n == 0 {
        128
    } else if n == 1 {
        64
    } else if n == 2 {
        32
    } else if n == 3 {
        16
    } else if n == 4 {
        8
    } else if n == 5 {
        4
    } else if n == 6 {
        2
    } else {
        1
    }
}

/// The `n`-th of the eight pieces under a byte of flags is a copy.
pub open spec fn flagged(flags: u8, n: int) -> bool {
    flags as int / flag_weight(n) % 2 == 1
}

/// The `n`-th piece says its part of the data.
pub open spec fn piece_says(pieces: Seq<Piece>, data: Seq<u8>, n: nat) -> bool {
    pieces[n as int].says(data, covered_by(pieces, n))
}

/// These pieces, one after the other, say the data and no more.
pub open spec fn split_into(data: Seq<u8>, pieces: Seq<Piece>) -> bool {
    &&& covered_by(pieces, pieces.len()) == data.len()
    &&& forall|n: nat| n < pieces.len() ==> #[trigger] piece_says(pieces, data, n)
}

/// Memory holds the `n`-th piece in its place, and its flag.
pub open spec fn piece_held(s: Seq<u8>, source: int, pieces: Seq<Piece>, n: nat) -> bool {
    &&& pieces[n as int].written_at(s, source + place_of(pieces, n))
    &&& flagged(s[source + place_of(pieces, (n - n % 8) as nat) - 1], (n % 8) as int) == (
    pieces[n as int] is Copy)
}

/// Memory from `source` on holds data written as these pieces.
pub open spec fn holds_pieces(s: Seq<u8>, source: int, pieces: Seq<Piece>) -> bool {
    &&& source + place_of(pieces, pieces.len()) <= s.len()
    &&& forall|n: nat| n < pieces.len() ==> #[trigger] piece_held(s, source, pieces, n)
}

/// The flag that the decoder tests is the binary digit.
proof fn lemma_flag(flags: u8, n: u8)
    requires
        n < 8,
    ensures
        (flags & (0x80u8 >> n) != 0) == flagged(flags, n as int),
{
    assert((flags & (0x80u8 >> 0u8) != 0 <==> flags / 128 % 2 == 1) && (flags & (0x80u8 >> 1u8) != 0
        <==> flags / 64 % 2 == 1) && (flags & (0x80u8 >> 2u8) != 0 <==> flags / 32 % 2 == 1) && (flags
        & (0x80u8 >> 3u8) != 0 <==> flags / 16 % 2 == 1) && (flags & (0x80u8 >> 4u8) != 0 <==> flags
        / 8 % 2 == 1) && (flags & (0x80u8 >> 5u8) != 0 <==> flags / 4 % 2 == 1) && (flags & (0x80u8
        >> 6u8) != 0 <==> flags / 2 % 2 == 1) && (flags & (0x80u8 >> 7u8) != 0 <==> flags % 2 == 1))
        by (bit_vector);
}

/// Copying continues a pattern that the data has.
proof fn lemma_copy_continues(data: Seq<u8>, at: int, distance: int, count: nat, size: int)
    requires
        1 <= distance <= at,
        at + count <= data.len(),
        data.len() <= size,
        forall|j: int| at <= j < at + count ==> #[trigger] data[j] == data[j - distance],
    ensures
        copied(data.take(at), at - distance, count, size) == data.take(at + count),
    decreases count,
{
    if count > 0 {
        assert(data[at] == data[at - distance]);
        assert(data.take(at).push(data[at - distance]) =~= data.take(at + 1));
        lemma_copy_continues(data, at + 1, distance, (count - 1) as nat, size);
    }
}

/// More pieces stand for no less data.
proof fn lemma_covered_grows(pieces: Seq<Piece>, data: Seq<u8>, n: nat, m: nat)
    requires
        n <= m <= pieces.len(),
        forall|i: nat| i < pieces.len() ==> #[trigger] piece_says(pieces, data, i),
    ensures
        0 <= covered_by(pieces, n) <= covered_by(pieces, m),
        n < m ==> covered_by(pieces, n) < covered_by(pieces, m),
        1 <= place_of(pieces, n) <= place_of(pieces, m),
        n < m ==> place_of(pieces, n) + pieces[n as int].written_size() <= place_of(pieces, m),
    decreases m,
{
    if m > n {
        lemma_covered_grows(pieces, data, n, (m - 1) as nat);
        assert(piece_says(pieces, data, (m - 1) as nat));
    } else if m > 0 {
        lemma_covered_grows(pieces, data, (m - 1) as nat, (m - 1) as nat);
        assert(piece_says(pieces, data, (m - 1) as nat));
    }
}

/// Decoding from `at` on, with the first `done` bytes out, ends in the data.
#[verifier::opaque]
pub open spec fn finishes(
    s: Seq<u8>,
    at: int,
    flags: u8,
    bit: nat,
    data: Seq<u8>,
    done: int,
) -> bool {
    lz77::<FlatBus>(s, at as u32, flags, bit, data.take(done), data.len() as int).out == data
}

/// A literal is one step of decoding.
proof fn lemma_literal_step(s: Seq<u8>, at: u32, flags: u8, bit: nat, data: Seq<u8>, done: int)
    requires
        bit < 8,
        at < s.len(),
        at < u32::MAX,
        0 <= done < data.len(),
        !flagged(flags, bit as int),
        s[at as int] == data[done],
    ensures
        finishes(s, at + 1, flags, bit + 1, data, done + 1) ==> finishes(
            s,
            at as int,
            flags,
            bit,
            data,
            done,
        ),
{
    reveal(finishes);
    lemma_flag(flags, bit as u8);
    assert(data.take(done).push(data[done]) =~= data.take(done + 1));
}

/// A copy is one step of decoding.
proof fn lemma_copy_step(
    s: Seq<u8>,
    at: u32,
    flags: u8,
    bit: nat,
    data: Seq<u8>,
    done: int,
    length: int,
    distance: int,
)
    requires
        bit < 8,
        at + 1 < s.len(),
        at + 2 <= u32::MAX,
        0 <= done,
        flagged(flags, bit as int),
        (Piece::Copy { length, distance }).says(data, done),
        (Piece::Copy { length, distance }).written_at(s, at as int),
    ensures
        finishes(s, at + 2, flags, bit + 1, data, done + length) ==> finishes(
            s,
            at as int,
            flags,
            bit,
            data,
            done,
        ),
{
    reveal(finishes);
    lemma_flag(flags, bit as u8);
    let first = s[at as int];
    let second = s[at + 1];
    assert(first / 16 == length - 3 && (first % 16) * 256 + second == distance - 1);
    lemma_copy_continues(data, done, distance, length as nat, data.len() as int);
}

/// A fresh byte of flags is one step of decoding.
proof fn lemma_flags_step(s: Seq<u8>, at: u32, flags: u8, data: Seq<u8>, done: int)
    requires
        at < s.len(),
        at < u32::MAX,
        0 <= done < data.len(),
    ensures
        finishes(s, at + 1, s[at as int], 0, data, done) ==> finishes(
            s,
            at as int,
            flags,
            8,
            data,
            done,
        ),
{
    reveal(finishes);
}

/// Nothing is left to decode.
proof fn lemma_finished(s: Seq<u8>, at: int, flags: u8, bit: nat, data: Seq<u8>)
    ensures
        finishes(s, at, flags, bit, data, data.len() as int),
{
    reveal(finishes);
    assert(data.take(data.len() as int) =~= data);
}

/// Decoding goes on from the `n`-th piece to the end of the data.
proof fn lemma_pieces_from(
    s: Seq<u8>,
    source: u32,
    data: Seq<u8>,
    pieces: Seq<Piece>,
    n: nat,
)
    requires
        n < pieces.len(),
        source + place_of(pieces, pieces.len()) <= u32::MAX,
        holds_pieces(s, source as int, pieces),
        split_into(data, pieces),
    ensures
        finishes(
            s,
            source + place_of(pieces, n),
            s[source + place_of(pieces, (n - n % 8) as nat) - 1],
            n % 8,
            data,
            covered_by(pieces, n),
        ),
    decreases pieces.len() - n,
{
    let at = covered_by(pieces, n);
    let place = place_of(pieces, n);
    let flags = s[source + place_of(pieces, (n - n % 8) as nat) - 1];
    let piece = pieces[n as int];
    let next = n + 1;
    assert(piece_says(pieces, data, n));
    assert(piece_held(s, source as int, pieces, n));
    lemma_covered_grows(pieces, data, n, pieces.len());
    lemma_covered_grows(pieces, data, next, pieces.len());
    assert(covered_by(pieces, next) == at + piece.covers());
    match piece {
        Piece::Literal(byte) => {
            lemma_literal_step(s, (source + place) as u32, flags, n % 8, data, at);
        },
        Piece::Copy { length, distance } => {
            lemma_copy_step(
                s,
                (source + place) as u32,
                flags,
                n % 8,
                data,
                at,
                length,
                distance,
            );
        },
    }
    let after = source + place + piece.written_size();
    if next == pieces.len() {
        lemma_finished(s, after, flags, n % 8 + 1, data);
    } else {
        assert(piece_says(pieces, data, next));
        lemma_covered_grows(pieces, data, next, (next + 1) as nat);
        lemma_covered_grows(pieces, data, (next + 1) as nat, pieces.len());
        lemma_pieces_from(s, source, data, pieces, next);
        if next % 8 == 0 {
            lemma_flags_step(s, after as u32, flags, data, covered_by(pieces, next));
        }
    }
}

/// LZ77 decoding inverts encoding: for any data and any split of it into single bytes and copies of
/// 3 to 18 bytes from 1 to 4096 bytes back, memory that holds the split decodes to the data.
pub proof fn law_lz77_inverts_encoding(
    s: Seq<u8>,
    source: u32,
    data: Seq<u8>,
    pieces: Seq<Piece>,
)
    requires
        source + place_of(pieces, pieces.len()) <= u32::MAX,
        holds_pieces(s, source as int, pieces),
        split_into(data, pieces),
    ensures
        lz77::<FlatBus>(s, source, 0, 8, Seq::empty(), data.len() as int).out == data,
{
    if pieces.len() > 0 {
        lemma_covered_grows(pieces, data, 0, pieces.len());
        lemma_pieces_from(s, source, data, pieces, 0);
        assert(piece_says(pieces, data, 0));
        lemma_flags_step(s, source, 0, data, 0);
        reveal(finishes);
        assert(data.take(0) =~= Seq::empty());
    } else {
        assert(data =~= Seq::empty());
    }
}

} // verus!
