//! The decompressors: LZ77, run-length, Huffman, and the two difference filters.
//!
//! Each reads its stream off the bus and produces bytes into a buffer. None produces more than it
//! was asked for, and a corrupt stream leaves the buffer short.

use vstd::prelude::*;
use crate::nds::bus::{Bus, FlatBus};

verus! {

/// A decoder's end: what the bus is left as, and what came out.
#[verifier::ext_equal]
pub struct Decoded<S> {
    pub bus: S,
    pub out: Seq<u8>,
}

/// Bytes copied one at a time from `from` on, so a run may overlap what it is still writing.
pub open spec fn copied(out: Seq<u8>, from: int, count: nat, size: int) -> Seq<u8>
    decreases count,
{
    if count == 0 || out.len() >= size {
        out
    } else {
        copied(out.push(out[from]), from + 1, (count - 1) as nat, size)
    }
}

/// LZ77: a flag byte then eight blocks, each a literal byte or a back-reference. `bit` is the
/// block within the current flags, and eight stands for "the flags are used up".
pub open spec fn lz77<B: Bus>(
    s: B::State,
    source: u32,
    flags: u8,
    bit: nat,
    out: Seq<u8>,
    size: int,
) -> Decoded<B::State>
    decreases size - out.len(), (if bit >= 8 { 1nat } else { 0nat }),
{
    if out.len() >= size {
        Decoded { bus: s, out }
    } else if bit >= 8 {
        lz77::<B>(
            B::after_read8(s, source),
            source.wrapping_add(1),
            B::byte(s, source),
            0,
            out,
            size,
        )
    } else if flags & (0x80u8 >> (bit as u8)) == 0 {
        lz77::<B>(
            B::after_read8(s, source),
            source.wrapping_add(1),
            flags,
            bit + 1,
            out.push(B::byte(s, source)),
            size,
        )
    } else {
        let first = B::byte(s, source);
        let s1 = B::after_read8(s, source);
        let second = B::byte(s1, source.wrapping_add(1));
        let s2 = B::after_read8(s1, source.wrapping_add(1));
        // The displacement is stored one less than it is.
        let distance = (first % 16) * 0x100 + second + 1;
        if distance > out.len() {
            Decoded { bus: s2, out }
        } else {
            let from = out.len() - distance;
            let count = (first / 16 + 3) as nat;
            proof {
                lemma_copied_grows(out, from, count, size);
            }
            lz77::<B>(
                s2,
                source.wrapping_add(2),
                flags,
                bit + 1,
                copied(out, from, count, size),
                size,
            )
        }
    }
}

/// Copying grows a buffer that has room.
pub proof fn lemma_copied_grows(out: Seq<u8>, from: int, count: nat, size: int)
    ensures
        copied(out, from, count, size).len() >= out.len(),
        count > 0 && out.len() < size ==> copied(out, from, count, size).len() > out.len(),
        out.len() <= size ==> copied(out, from, count, size).len() <= size,
    decreases count,
{
    if count > 0 && out.len() < size {
        lemma_copied_grows(out.push(out[from]), from + 1, (count - 1) as nat, size);
    }
}

/// Copy bytes that the buffer already holds.
fn copy_back(out: &mut Vec<u8>, from: usize, count: usize, size: usize)
    requires
        from < old(out)@.len(),
    ensures
        final(out)@ == copied(old(out)@, from as int, count as nat, size as int),
{
    let mut at = from;
    let mut left = count;
    while left > 0 && out.len() < size
        invariant
            at < out@.len(),
            copied(out@, at as int, left as nat, size as int) == copied(
                old(out)@,
                from as int,
                count as nat,
                size as int,
            ),
        decreases left,
    {
        let byte = out[at];
        out.push(byte);
        at = at + 1;
        left = left - 1;
    }
}

pub fn decode_lz77<B: Bus>(bus: &mut B, source: u32, size: usize) -> (r: Vec<u8>)
    ensures
        lz77::<B>(old(bus).state(), source, 0, 8, Seq::empty(), size as int) == (Decoded {
            bus: final(bus).state(),
            out: r@,
        }),
        r@.len() <= size,
{
    let mut out: Vec<u8> = Vec::new();
    let mut at = source;
    let mut flags: u8 = 0;
    let mut bit: u8 = 8;
    let ghost whole = lz77::<B>(bus.state(), source, 0, 8, Seq::empty(), size as int);
    assert(out@ =~= Seq::empty());
    while out.len() < size
        invariant
            bit <= 8,
            out@.len() <= size,
            whole == lz77::<B>(old(bus).state(), source, 0, 8, Seq::empty(), size as int),
            lz77::<B>(bus.state(), at, flags, bit as nat, out@, size as int) == whole,
        decreases size - out@.len(), (if bit >= 8 { 1int } else { 0 }),
    {
        if bit >= 8 {
            flags = bus.read8(at);
            at = at.wrapping_add(1);
            bit = 0;
        } else if flags & (0x80u8 >> bit) == 0 {
            let byte = bus.read8(at);
            out.push(byte);
            at = at.wrapping_add(1);
            bit = bit + 1;
        } else {
            let first = bus.read8(at) as usize;
            let second = bus.read8(at.wrapping_add(1)) as usize;
            let length: usize = first / 16 + 3;
            let distance: usize = (first % 16) * 0x100 + second + 1;
            if distance > out.len() {
                // A back-reference past the start of the output is a corrupt stream.
                return out;
            }
            let from: usize = out.len() - distance;
            proof {
                lemma_copied_grows(out@, from as int, length as nat, size as int);
            }
            copy_back(&mut out, from, length, size);
            at = at.wrapping_add(2);
            bit = bit + 1;
        }
    }
    out
}

/// A span of literal bytes, cut where the buffer is full.
pub open spec fn literals<B: Bus>(
    s: B::State,
    source: u32,
    count: nat,
    out: Seq<u8>,
    size: int,
) -> (B::State, u32, Seq<u8>)
    decreases count,
{
    if count == 0 || out.len() >= size {
        (s, source, out)
    } else {
        literals::<B>(
            B::after_read8(s, source),
            source.wrapping_add(1),
            (count - 1) as nat,
            out.push(B::byte(s, source)),
            size,
        )
    }
}

/// One byte repeated, cut where the buffer is full.
pub open spec fn repeated(out: Seq<u8>, byte: u8, count: nat, size: int) -> Seq<u8>
    decreases count,
{
    if count == 0 || out.len() >= size {
        out
    } else {
        repeated(out.push(byte), byte, (count - 1) as nat, size)
    }
}

/// Run-length: a flag byte whose top bit picks a literal span or a repeated byte. The two forms
/// have different biases.
pub open spec fn run_length<B: Bus>(s: B::State, source: u32, out: Seq<u8>, size: int) -> Decoded<
    B::State,
>
    decreases size - out.len(),
{
    if out.len() >= size {
        Decoded { bus: s, out }
    } else {
        let flag = B::byte(s, source);
        let s1 = B::after_read8(s, source);
        let data = source.wrapping_add(1);
        if flag < 0x80 {
            let (s2, next, longer) = literals::<B>(s1, data, (flag + 1) as nat, out, size);
            proof {
                lemma_literals_grow::<B>(s1, data, (flag + 1) as nat, out, size);
            }
            run_length::<B>(s2, next, longer, size)
        } else {
            let count = (flag - 0x80 + 3) as nat;
            proof {
                lemma_repeated_grows(out, B::byte(s1, data), count, size);
            }
            run_length::<B>(
                B::after_read8(s1, data),
                data.wrapping_add(1),
                repeated(out, B::byte(s1, data), count, size),
                size,
            )
        }
    }
}

pub proof fn lemma_literals_grow<B: Bus>(
    s: B::State,
    source: u32,
    count: nat,
    out: Seq<u8>,
    size: int,
)
    ensures
        literals::<B>(s, source, count, out, size).2.len() >= out.len(),
        count > 0 && out.len() < size ==> literals::<B>(s, source, count, out, size).2.len()
            > out.len(),
        out.len() <= size ==> literals::<B>(s, source, count, out, size).2.len() <= size,
    decreases count,
{
    if count > 0 && out.len() < size {
        lemma_literals_grow::<B>(
            B::after_read8(s, source),
            source.wrapping_add(1),
            (count - 1) as nat,
            out.push(B::byte(s, source)),
            size,
        );
    }
}

pub proof fn lemma_repeated_grows(out: Seq<u8>, byte: u8, count: nat, size: int)
    ensures
        repeated(out, byte, count, size).len() >= out.len(),
        count > 0 && out.len() < size ==> repeated(out, byte, count, size).len() > out.len(),
        out.len() <= size ==> repeated(out, byte, count, size).len() <= size,
    decreases count,
{
    if count > 0 && out.len() < size {
        lemma_repeated_grows(out.push(byte), byte, (count - 1) as nat, size);
    }
}

pub fn decode_run_length<B: Bus>(bus: &mut B, source: u32, size: usize) -> (r: Vec<u8>)
    ensures
        run_length::<B>(old(bus).state(), source, Seq::empty(), size as int) == (Decoded {
            bus: final(bus).state(),
            out: r@,
        }),
        r@.len() <= size,
{
    let mut out: Vec<u8> = Vec::new();
    let mut at = source;
    let ghost whole = run_length::<B>(bus.state(), source, Seq::empty(), size as int);
    assert(out@ =~= Seq::empty());
    while out.len() < size
        invariant
            out@.len() <= size,
            run_length::<B>(bus.state(), at, out@, size as int) == whole,
        decreases size - out@.len(),
    {
        let ghost before = out@;
        let flag = bus.read8(at);
        at = at.wrapping_add(1);
        let ghost s1 = bus.state();
        let ghost data = at;
        if flag < 0x80 {
            let count: usize = flag as usize + 1;
            let mut left: usize = count;
            proof {
                lemma_literals_grow::<B>(s1, data, count as nat, before, size as int);
            }
            while left > 0 && out.len() < size
                invariant
                    literals::<B>(bus.state(), at, left as nat, out@, size as int) == literals::<B>(
                        s1,
                        data,
                        count as nat,
                        before,
                        size as int,
                    ),
                decreases left,
            {
                let byte = bus.read8(at);
                out.push(byte);
                at = at.wrapping_add(1);
                left = left - 1;
            }
        } else {
            let count: usize = flag as usize - 0x80 + 3;
            let byte = bus.read8(at);
            at = at.wrapping_add(1);
            let mut left: usize = count;
            proof {
                lemma_repeated_grows(before, byte, count as nat, size as int);
            }
            while left > 0 && out.len() < size
                invariant
                    repeated(out@, byte, left as nat, size as int) == repeated(
                        before,
                        byte,
                        count as nat,
                        size as int,
                    ),
                decreases left,
            {
                out.push(byte);
                left = left - 1;
            }
        }
    }
    out
}

/// Bytes stored as differences, the `n`-th and those before it.
pub open spec fn diff8<B: Bus>(s: B::State, source: u32, value: u8, out: Seq<u8>, count: nat) -> Decoded<
    B::State,
>
    decreases count,
{
    if count == 0 {
        Decoded { bus: s, out }
    } else {
        let next = value.wrapping_add(B::byte(s, source));
        diff8::<B>(
            B::after_read8(s, source),
            source.wrapping_add(1),
            next,
            out.push(next),
            (count - 1) as nat,
        )
    }
}

/// Each byte is stored as its difference from the one before.
pub fn decode_diff8<B: Bus>(bus: &mut B, source: u32, size: usize) -> (r: Vec<u8>)
    ensures
        diff8::<B>(old(bus).state(), source, 0, Seq::empty(), size as nat) == (Decoded {
            bus: final(bus).state(),
            out: r@,
        }),
        r@.len() == size,
{
    let mut out: Vec<u8> = Vec::new();
    let mut at = source;
    let mut value: u8 = 0;
    let ghost whole = diff8::<B>(bus.state(), source, 0, Seq::empty(), size as nat);
    assert(out@ =~= Seq::empty());
    for i in 0..size
        invariant
            out@.len() == i,
            diff8::<B>(bus.state(), at, value, out@, (size - i) as nat) == whole,
    {
        let byte = bus.read8(at);
        value = value.wrapping_add(byte);
        out.push(value);
        at = at.wrapping_add(1);
    }
    out
}

/// Halfwords stored as differences.
pub open spec fn diff16<B: Bus>(
    s: B::State,
    source: u32,
    value: u16,
    out: Seq<u8>,
    count: nat,
) -> Decoded<B::State>
    decreases count,
{
    if count == 0 {
        Decoded { bus: s, out }
    } else {
        let next = value.wrapping_add(B::half(s, source));
        diff16::<B>(
            B::after_read16(s, source),
            source.wrapping_add(2),
            next,
            out.push((next % 0x100) as u8).push((next / 0x100) as u8),
            (count - 1) as nat,
        )
    }
}

/// Each halfword is stored as its difference from the one before.
pub fn decode_diff16<B: Bus>(bus: &mut B, source: u32, size: usize) -> (r: Vec<u8>)
    ensures
        diff16::<B>(old(bus).state(), source, 0, Seq::empty(), (size / 2) as nat) == (Decoded {
            bus: final(bus).state(),
            out: r@,
        }),
        r@.len() == size / 2 * 2,
{
    let mut out: Vec<u8> = Vec::new();
    let mut at = source;
    let mut value: u16 = 0;
    let count = size / 2;
    let ghost whole = diff16::<B>(bus.state(), source, 0, Seq::empty(), count as nat);
    assert(out@ =~= Seq::empty());
    for i in 0..count
        invariant
            out@.len() == 2 * i,
            diff16::<B>(bus.state(), at, value, out@, (count - i) as nat) == whole,
    {
        let half = bus.read16(at);
        value = value.wrapping_add(half);
        out.push((value % 0x100) as u8);
        out.push((value / 0x100) as u8);
        at = at.wrapping_add(2);
    }
    out
}

/// Where a Huffman walk stands.
#[derive(Clone, Copy, Debug)]
pub struct Walk {
    /// The node's own address, and the node.
    pub position: u32,
    pub node: u8,
    /// Where the next word of the bitstream is, and what is left of the current one.
    pub stream: u32,
    pub window: u32,
    pub remaining: u32,
    /// The first half of a byte made of four-bit symbols.
    pub low: Option<u8>,
}

/// Huffman: one bit of the stream at a time, most significant first, each choosing a child of the
/// current node until a leaf is reached.
///
/// A node's two children sit at an offset from the node's own address rounded down to even. The
/// parent carries a leaf flag for each: bit 7 for the left, bit 6 for the right.
pub open spec fn huffman<B: Bus>(
    s: B::State,
    root: u32,
    eight_bit: bool,
    walk: Walk,
    out: Seq<u8>,
    size: int,
    budget: nat,
) -> Decoded<B::State>
    decreases budget,
{
    if out.len() >= size || budget <= 1 {
        Decoded { bus: s, out }
    } else {
        let refill = walk.remaining == 0;
        let word = if refill { B::word(s, walk.stream) } else { walk.window };
        let s1 = if refill { B::after_read32(s, walk.stream) } else { s };
        let stream = if refill { walk.stream.wrapping_add(4) } else { walk.stream };
        let remaining = (if refill { 31int } else { walk.remaining - 1 }) as u32;
        let bit = (word >> 31) & 1;
        let window = word << 1;
        let child = child_of(walk.position, walk.node, bit);
        let byte = B::byte(s1, child);
        let s2 = B::after_read8(s1, child);
        let leaf = walk.node & (if bit == 0 { 0x80u8 } else { 0x40u8 }) != 0;
        if leaf {
            let (low, longer) = if eight_bit {
                (walk.low, out.push(byte))
            } else {
                match walk.low {
                    None => (Some(byte & 0x0F), out),
                    Some(low) => (None, out.push(low | ((byte & 0x0F) << 4))),
                }
            };
            huffman::<B>(
                B::after_read8(s2, root),
                root,
                eight_bit,
                Walk { position: root, node: B::byte(s2, root), stream, window, remaining, low },
                longer,
                size,
                (budget - 1) as nat,
            )
        } else {
            huffman::<B>(
                s2,
                root,
                eight_bit,
                Walk { position: child, node: byte, stream, window, remaining, low: walk.low },
                out,
                size,
                (budget - 1) as nat,
            )
        }
    }
}

/// The address of a node's left or right child.
pub open spec fn child_of(position: u32, node: u8, bit: u32) -> u32 {
    ((position - position % 2) as u32).wrapping_add(
        ((node as u32 & 0x3F) * 2 + 2 + bit) as u32,
    )
}

/// The whole stream, from its header word at `source`.
pub open spec fn huffman_stream<B: Bus>(s: B::State, source: u32, header: u32, size: int) -> Decoded<
    B::State,
> {
    let symbol_bits = header & 0x0F;
    if symbol_bits != 4 && symbol_bits != 8 {
        Decoded { bus: s, out: Seq::empty() }
    } else {
        let tree = source.wrapping_add(4);
        let root = tree.wrapping_add(1);
        let s1 = B::after_read8(s, tree);
        let stream = tree.wrapping_add(((B::byte(s, tree) + 1) * 2) as u32);
        let s2 = B::after_read8(s1, root);
        huffman::<B>(
            B::after_read32(s2, stream),
            root,
            symbol_bits == 8,
            Walk {
                position: root,
                node: B::byte(s1, root),
                stream: stream.wrapping_add(4),
                window: B::word(s2, stream),
                remaining: 32,
                low: None,
            },
            Seq::empty(),
            size,
            (size * 256 + 1024) as nat,
        )
    }
}

pub fn decode_huffman<B: Bus>(bus: &mut B, source: u32, header: u32, size: usize) -> (r: Vec<u8>)
    requires
        size <= 0x0100_0000,
    ensures
        huffman_stream::<B>(old(bus).state(), source, header, size as int) == (Decoded {
            bus: final(bus).state(),
            out: r@,
        }),
        r@.len() <= size,
{
    broadcast use crate::bits::lemma_and_bound_u32;

    let mut out: Vec<u8> = Vec::new();
    assert(out@ =~= Seq::empty());
    let symbol_bits = header & 0x0F;
    if symbol_bits != 4 && symbol_bits != 8 {
        return out;
    }
    let eight_bit = symbol_bits == 8;
    // The tree begins immediately after the header word. Its first byte is its size, and the root
    // node is the byte after that.
    let tree = source.wrapping_add(4);
    let root = tree.wrapping_add(1);
    let tree_size: u32 = (bus.read8(tree) as u32 + 1) * 2;
    let first = tree.wrapping_add(tree_size);
    let node = bus.read8(root);
    let window = bus.read32(first);
    let mut walk = Walk {
        position: root,
        node,
        stream: first.wrapping_add(4),
        window,
        remaining: 32,
        low: None,
    };
    // A corrupt tree can walk in a circle forever, so the work is bounded by what the output
    // could possibly need.
    let mut budget: u64 = size as u64 * 256 + 1024;
    let ghost whole = huffman_stream::<B>(old(bus).state(), source, header, size as int);
    while out.len() < size
        invariant_except_break
            out@.len() <= size,
            1 <= budget,
            walk.remaining <= 32,
            huffman::<B>(bus.state(), root, eight_bit, walk, out@, size as int, budget as nat)
                == whole,
        ensures
            out@.len() <= size,
            whole == (Decoded { bus: bus.state(), out: out@ }),
        decreases budget,
    {
        broadcast use crate::bits::lemma_and_bound_u32;

        budget = budget - 1;
        if budget == 0 {
            break;
        }
        if walk.remaining == 0 {
            walk.window = bus.read32(walk.stream);
            walk.stream = walk.stream.wrapping_add(4);
            walk.remaining = 32;
        }
        let bit = (walk.window >> 31) & 1;
        walk.window = walk.window << 1;
        walk.remaining = walk.remaining - 1;
        let base: u32 = walk.position - walk.position % 2;
        let child = base.wrapping_add((walk.node as u32 & 0x3F) * 2 + 2 + bit);
        let byte = bus.read8(child);
        let flag: u8 = if bit == 0 { 0x80 } else { 0x40 };
        if walk.node & flag != 0 {
            if eight_bit {
                out.push(byte);
            } else {
                // Four-bit symbols pack two to a byte, low nibble first.
                match walk.low {
                    None => {
                        walk.low = Some(byte & 0x0F);
                    },
                    Some(low) => {
                        out.push(low | ((byte & 0x0F) << 4));
                        walk.low = None;
                    },
                }
            }
            walk.position = root;
            walk.node = bus.read8(root);
        } else {
            walk.position = child;
            walk.node = byte;
        }
    }
    out
}

/// LZ77 never gives more than the size its header claims, whatever the stream holds.
pub proof fn law_lz77_keeps_to_its_size<B: Bus>(
    s: B::State,
    source: u32,
    flags: u8,
    bit: nat,
    out: Seq<u8>,
    size: int,
)
    requires
        out.len() <= size,
    ensures
        lz77::<B>(s, source, flags, bit, out, size).out.len() <= size,
        out.is_prefix_of(lz77::<B>(s, source, flags, bit, out, size).out),
    decreases size - out.len(), (if bit >= 8 { 1nat } else { 0nat }),
{
    if out.len() >= size {
    } else if bit >= 8 {
        law_lz77_keeps_to_its_size::<B>(
            B::after_read8(s, source),
            source.wrapping_add(1),
            B::byte(s, source),
            0,
            out,
            size,
        );
    } else if flags & (0x80u8 >> (bit as u8)) == 0 {
        law_lz77_keeps_to_its_size::<B>(
            B::after_read8(s, source),
            source.wrapping_add(1),
            flags,
            bit + 1,
            out.push(B::byte(s, source)),
            size,
        );
    } else {
        let first = B::byte(s, source);
        let s1 = B::after_read8(s, source);
        let second = B::byte(s1, source.wrapping_add(1));
        let s2 = B::after_read8(s1, source.wrapping_add(1));
        let distance = (first % 16) * 0x100 + second + 1;
        if distance <= out.len() {
            let from = out.len() - distance;
            let count = (first / 16 + 3) as nat;
            lemma_copied_grows(out, from, count, size);
            lemma_copied_keeps(out, from, count, size);
            law_lz77_keeps_to_its_size::<B>(
                s2,
                source.wrapping_add(2),
                flags,
                bit + 1,
                copied(out, from, count, size),
                size,
            );
        }
    }
}

/// Copying keeps what the buffer holds.
proof fn lemma_copied_keeps(out: Seq<u8>, from: int, count: nat, size: int)
    ensures
        out.is_prefix_of(copied(out, from, count, size)),
    decreases count,
{
    if count > 0 && out.len() < size {
        lemma_copied_keeps(out.push(out[from]), from + 1, (count - 1) as nat, size);
    }
}

/// Run-length gives exactly the size its header claims.
pub proof fn law_run_length_fills_its_size<B: Bus>(
    s: B::State,
    source: u32,
    out: Seq<u8>,
    size: int,
)
    requires
        out.len() <= size,
    ensures
        run_length::<B>(s, source, out, size).out.len() == size,
    decreases size - out.len(),
{
    if out.len() < size {
        let flag = B::byte(s, source);
        let s1 = B::after_read8(s, source);
        let data = source.wrapping_add(1);
        if flag < 0x80 {
            let (s2, next, longer) = literals::<B>(s1, data, (flag + 1) as nat, out, size);
            lemma_literals_grow::<B>(s1, data, (flag + 1) as nat, out, size);
            law_run_length_fills_its_size::<B>(s2, next, longer, size);
        } else {
            let count = (flag - 0x80 + 3) as nat;
            lemma_repeated_grows(out, B::byte(s1, data), count, size);
            law_run_length_fills_its_size::<B>(
                B::after_read8(s1, data),
                data.wrapping_add(1),
                repeated(out, B::byte(s1, data), count, size),
                size,
            );
        }
    }
}

/// A Huffman stream never gives more than the size its header claims, even one whose tree leads
/// nowhere.
pub proof fn law_huffman_keeps_to_its_size<B: Bus>(
    s: B::State,
    root: u32,
    eight_bit: bool,
    walk: Walk,
    out: Seq<u8>,
    size: int,
    budget: nat,
)
    requires
        out.len() <= size,
    ensures
        huffman::<B>(s, root, eight_bit, walk, out, size, budget).out.len() <= size,
    decreases budget,
{
    if out.len() < size && budget > 1 {
        let refill = walk.remaining == 0;
        let word = if refill { B::word(s, walk.stream) } else { walk.window };
        let s1 = if refill { B::after_read32(s, walk.stream) } else { s };
        let stream = if refill { walk.stream.wrapping_add(4) } else { walk.stream };
        let remaining = (if refill { 31int } else { walk.remaining - 1 }) as u32;
        let bit = (word >> 31) & 1;
        let window = word << 1;
        let child = child_of(walk.position, walk.node, bit);
        let byte = B::byte(s1, child);
        let s2 = B::after_read8(s1, child);
        let leaf = walk.node & (if bit == 0 { 0x80u8 } else { 0x40u8 }) != 0;
        if leaf {
            let (low, longer) = if eight_bit {
                (walk.low, out.push(byte))
            } else {
                match walk.low {
                    None => (Some(byte & 0x0F), out),
                    Some(low) => (None, out.push(low | ((byte & 0x0F) << 4))),
                }
            };
            law_huffman_keeps_to_its_size::<B>(
                B::after_read8(s2, root),
                root,
                eight_bit,
                Walk { position: root, node: B::byte(s2, root), stream, window, remaining, low },
                longer,
                size,
                (budget - 1) as nat,
            );
        } else {
            law_huffman_keeps_to_its_size::<B>(
                s2,
                root,
                eight_bit,
                Walk { position: child, node: byte, stream, window, remaining, low: walk.low },
                out,
                size,
                (budget - 1) as nat,
            );
        }
    }
}

/// Bytes stored as differences come back: memory that holds each byte less the one before it
/// decodes to the bytes.
pub proof fn law_differences_add_up(s: Seq<u8>, source: u32, bytes: Seq<u8>)
    requires
        source + bytes.len() <= s.len(),
        source + bytes.len() <= u32::MAX,
        forall|i: int|
            0 <= i < bytes.len() ==> #[trigger] s[source + i] == bytes[i].wrapping_sub(
                if i == 0 { 0 } else { bytes[i - 1] },
            ),
    ensures
        diff8::<FlatBus>(s, source, 0, Seq::empty(), bytes.len()).out == bytes,
{
    lemma_differences_from(s, source, bytes, 0);
    assert(bytes.take(0) =~= Seq::empty());
}

/// Decoding the rest of a stream whose first `done` bytes are out.
proof fn lemma_differences_from(s: Seq<u8>, source: u32, bytes: Seq<u8>, done: nat)
    requires
        done <= bytes.len(),
        source + bytes.len() <= s.len(),
        source + bytes.len() <= u32::MAX,
        forall|i: int|
            0 <= i < bytes.len() ==> #[trigger] s[source + i] == bytes[i].wrapping_sub(
                if i == 0 { 0 } else { bytes[i - 1] },
            ),
    ensures
        diff8::<FlatBus>(
            s,
            (source + done) as u32,
            if done == 0 { 0 } else { bytes[done - 1] },
            bytes.take(done as int),
            (bytes.len() - done) as nat,
        ).out == bytes,
    decreases bytes.len() - done,
{
    if done == bytes.len() {
        assert(bytes.take(done as int) =~= bytes);
    } else {
        lemma_differences_from(s, source, bytes, done + 1);
        assert(s[source + done as int] == bytes[done as int].wrapping_sub(
            if done == 0 { 0 } else { bytes[done - 1] },
        ));
        assert(bytes.take(done as int).push(bytes[done as int]) =~= bytes.take(done as int + 1));
    }
}

} // verus!
