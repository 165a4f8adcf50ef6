//! What the other decompressors undo, and where a decompression call puts what it made.

use vstd::prelude::*;
use super::decode::{
    child_of, diff16, diff8, huffman, huffman_stream, literals, lz77, repeated, run_length, Walk,
};
use super::{bytes_written, decoded, pairs_written, unpacked, Decoder, UNPACK_LIMIT};
use crate::bits::lemma_nibbles;
use crate::nds::bus::{flat_half, Bus, FlatBus};

verus! {

/// One piece of data written for run-length decoding: so many bytes as they are, or one byte so many
/// times.
pub enum Run {
    Span(int),
    Same(int),
}

/// Memory from `at` on holds the runs, and they say what `data` holds from `done` on to its end: a
/// span of 1 to 128 bytes behind its length less one, or a byte repeated 3 to 130 times behind its
/// count less three with the top bit set.
pub open spec fn holds_runs(s: Seq<u8>, at: int, runs: Seq<Run>, data: Seq<u8>, done: int) -> bool
    decreases runs.len(),
{
    if runs.len() == 0 {
        done == data.len()
    } else {
        match runs[0] {
            Run::Span(n) => {
                &&& 1 <= n <= 128
                &&& done + n <= data.len()
                &&& at + 1 + n <= s.len()
                &&& s[at] == n - 1
                &&& s.subrange(at + 1, at + 1 + n) == data.subrange(done, done + n)
                &&& holds_runs(s, at + 1 + n, runs.drop_first(), data, done + n)
            },
            Run::Same(n) => {
                &&& 3 <= n <= 130
                &&& done + n <= data.len()
                &&& at + 2 <= s.len()
                &&& s[at] == 128 + n - 3
                &&& forall|j: int| done <= j < done + n ==> #[trigger] data[j] == s[at + 1]
                &&& holds_runs(s, at + 2, runs.drop_first(), data, done + n)
            },
        }
    }
}

proof fn lemma_span(s: Seq<u8>, at: u32, n: nat, data: Seq<u8>, done: int)
    requires
        0 <= done,
        done + n <= data.len(),
        at + n <= s.len() <= u32::MAX,
        forall|i: int| 0 <= i < n ==> #[trigger] s[at + i] == data[done + i],
    ensures
        literals::<FlatBus>(s, at, n, data.take(done), data.len() as int) == (
            s,
            (at + n) as u32,
            data.take(done + n),
        ),
    decreases n,
{
    if n > 0 {
        assert(s[at + 0int] == data[done + 0int]);
        assert(data.take(done).push(s[at as int]) =~= data.take(done + 1));
        assert forall|i: int| 0 <= i < n - 1 implies #[trigger] s[(at + 1) as u32 + i] == data[done + 1
            + i] by {
            assert(s[at + (i + 1)] == data[done + (i + 1)]);
        }
        lemma_span(s, (at + 1) as u32, (n - 1) as nat, data, done + 1);
    }
}

proof fn lemma_same(byte: u8, n: nat, data: Seq<u8>, done: int)
    requires
        0 <= done,
        done + n <= data.len(),
        forall|j: int| done <= j < done + n ==> #[trigger] data[j] == byte,
    ensures
        repeated(data.take(done), byte, n, data.len() as int) == data.take(done + n),
    decreases n,
{
    if n > 0 {
        assert(data[done] == byte);
        assert(data.take(done).push(byte) =~= data.take(done + 1));
        lemma_same(byte, (n - 1) as nat, data, done + 1);
    }
}

proof fn lemma_runs_from(s: Seq<u8>, at: u32, runs: Seq<Run>, data: Seq<u8>, done: int)
    requires
        0 <= done <= data.len(),
        s.len() <= u32::MAX,
        holds_runs(s, at as int, runs, data, done),
    ensures
        run_length::<FlatBus>(s, at, data.take(done), data.len() as int).out == data,
    decreases runs.len(),
{
    if runs.len() == 0 {
        assert(data.take(done) =~= data);
    } else {
        match runs[0] {
            Run::Span(n) => {
                assert forall|i: int| 0 <= i < n implies #[trigger] s[(at + 1) as u32 + i] == data[done
                    + i] by {
                    assert(s.subrange(at + 1, at + 1 + n)[i] == data.subrange(done, done + n)[i]);
                }
                lemma_span(s, (at + 1) as u32, n as nat, data, done);
                lemma_runs_from(s, (at + 1 + n) as u32, runs.drop_first(), data, done + n);
            },
            Run::Same(n) => {
                lemma_same(s[at + 1], n as nat, data, done);
                lemma_runs_from(s, (at + 2) as u32, runs.drop_first(), data, done + n);
            },
        }
    }
}

/// Run-length decoding inverts encoding: for any data and any split of it into spans and repeats,
/// memory that holds the split decodes to the data.
pub proof fn law_run_length_inverts_encoding(s: Seq<u8>, source: u32, runs: Seq<Run>, data: Seq<u8>)
    requires
        s.len() <= u32::MAX,
        holds_runs(s, source as int, runs, data, 0),
    ensures
        run_length::<FlatBus>(s, source, Seq::empty(), data.len() as int).out == data,
{
    assert(data.take(0) =~= Seq::empty());
    lemma_runs_from(s, source, runs, data, 0);
}

/// The bytes of halfwords, low byte first.
pub open spec fn spread(values: Seq<u16>) -> Seq<u8> {
    Seq::new(
        2 * values.len(),
        |i: int| (if i % 2 == 0 { values[i / 2] as int % 256 } else { values[i / 2] as int / 256 }) as u8,
    )
}

/// Halfwords stored as differences come back: memory that holds each halfword less the one before it
/// decodes to the halfwords, low byte first.
pub proof fn law_halfword_differences_add_up(s: Seq<u8>, source: u32, values: Seq<u16>)
    requires
        source + 2 * values.len() <= s.len() <= u32::MAX,
        forall|i: int|
            0 <= i < values.len() ==> #[trigger] flat_half(s, (source + 2 * i) as u32)
                == values[i].wrapping_sub(if i == 0 { 0 } else { values[i - 1] }),
    ensures
        diff16::<FlatBus>(s, source, 0, Seq::empty(), values.len()).out == spread(values),
{
    lemma_halfwords_from(s, source, values, 0);
    assert(spread(values.take(0)) =~= Seq::empty());
}

proof fn lemma_halfwords_from(s: Seq<u8>, source: u32, values: Seq<u16>, done: nat)
    requires
        done <= values.len(),
        source + 2 * values.len() <= s.len() <= u32::MAX,
        forall|i: int|
            0 <= i < values.len() ==> #[trigger] flat_half(s, (source + 2 * i) as u32)
                == values[i].wrapping_sub(if i == 0 { 0 } else { values[i - 1] }),
    ensures
        diff16::<FlatBus>(
            s,
            (source + 2 * done) as u32,
            if done == 0 { 0 } else { values[done - 1] },
            spread(values.take(done as int)),
            (values.len() - done) as nat,
        ).out == spread(values),
    decreases values.len() - done,
{
    if done == values.len() {
        assert(values.take(done as int) =~= values);
    } else {
        lemma_halfwords_from(s, source, values, done + 1);
        let next = values[done as int];
        assert(flat_half(s, (source + 2 * (done as int)) as u32) == next.wrapping_sub(
            if done == 0 { 0 } else { values[done - 1] },
        ));
        assert(spread(values.take(done as int)).push((next % 0x100) as u8).push(
            (next / 0x100) as u8,
        ) =~= spread(values.take(done as int + 1)));
    }
}

/// A tree of symbols, in which each symbol's code is the way down to it.
pub enum Tree {
    Leaf(u8),
    Fork(Box<Tree>, Box<Tree>),
}

/// The symbol at the end of a way down, left for a clear bit and right for a set one.
pub open spec fn reached(tree: Tree, way: Seq<bool>) -> Option<u8>
    decreases tree,
{
    match tree {
        Tree::Leaf(symbol) => if way.len() == 0 { Some(symbol) } else { None },
        Tree::Fork(left, right) => if way.len() == 0 {
            None
        } else {
            reached(if way[0] { *right } else { *left }, way.drop_first())
        },
    }
}

/// Memory holds the tree with its top at `at`: a leaf as its symbol; a fork as the distance to its two
/// children, which lie side by side, with bit 7 set where the left one is a leaf and bit 6 where the
/// right one is.
pub open spec fn holds_tree(s: Seq<u8>, at: int, tree: Tree) -> bool
    decreases tree,
{
    &&& 0 <= at < s.len()
    &&& match tree {
        Tree::Leaf(symbol) => s[at] == symbol,
        Tree::Fork(left, right) => {
            let children = at - at % 2 + 2 * (s[at] as int % 64) + 2;
            &&& (s[at] as int / 128 == 1) == (*left is Leaf)
            &&& (s[at] as int / 64 % 2 == 1) == (*right is Leaf)
            &&& holds_tree(s, children, *left)
            &&& holds_tree(s, children + 1, *right)
        },
    }
}

/// The `k`-th bit of a stream of words, each from its top bit down.
pub open spec fn stream_bit(s: Seq<u8>, stream: int, k: int) -> bool {
    (FlatBus::word(s, (stream + 4 * (k / 32)) as u32) >> ((31 - k % 32) as u32)) & 1 == 1
}

/// Where the `n`-th code begins.
pub open spec fn code_start(codes: Seq<Seq<bool>>, n: nat) -> int
    decreases n,
{
    if n == 0 {
        0
    } else {
        code_start(codes, (n - 1) as nat) + codes[n - 1].len()
    }
}

/// The `n`-th symbol of some data: a byte, or half of one with the low half first.
pub open spec fn symbol_of(data: Seq<u8>, eight_bit: bool, n: int) -> int {
    if eight_bit {
        data[n] as int
    } else if n % 2 == 0 {
        data[n / 2] as int % 16
    } else {
        data[n / 2] as int / 16
    }
}

/// The stream holds the `n`-th code from bit `k` on, and it leads to the `n`-th symbol.
pub open spec fn code_held(
    s: Seq<u8>,
    stream: int,
    tree: Tree,
    codes: Seq<Seq<bool>>,
    data: Seq<u8>,
    eight_bit: bool,
    n: nat,
) -> bool {
    &&& reached(tree, codes[n as int]) == Some(symbol_of(data, eight_bit, n as int) as u8)
    &&& forall|j: int|
        0 <= j < codes[n as int].len() ==> codes[n as int][j] == #[trigger] stream_bit(
            s,
            stream,
            code_start(codes, n) + j,
        )
}

/// The stream holds every code.
pub open spec fn codes_held(
    s: Seq<u8>,
    stream: int,
    tree: Tree,
    codes: Seq<Seq<bool>>,
    data: Seq<u8>,
    eight_bit: bool,
) -> bool {
    forall|n: nat|
        n < codes.len() ==> #[trigger] code_held(s, stream, tree, codes, data, eight_bit, n)
}

/// The walk has taken `k` bits of the stream.
spec fn stands(s: Seq<u8>, stream: int, walk: Walk, k: int) -> bool {
    &&& 0 <= k
    &&& walk.remaining <= 32
    &&& (k + walk.remaining) % 32 == 0
    &&& walk.stream == stream + 4 * ((k + walk.remaining) / 32)
    &&& forall|j: int|
        0 <= j < walk.remaining ==> ((walk.window >> ((31 - j) as u32)) & 1 == 1) == #[trigger]
            stream_bit(s, stream, k + j)
}

/// Decoding from here on gives the data.
#[verifier::opaque]
spec fn gives(
    s: Seq<u8>,
    root: u32,
    eight_bit: bool,
    walk: Walk,
    out: Seq<u8>,
    budget: nat,
    data: Seq<u8>,
) -> bool {
    huffman::<FlatBus>(s, root, eight_bit, walk, out, data.len() as int, budget).out == data
}

/// One bit of a shifted word.
proof fn lemma_shifted(word: u32, j: u32)
    requires
        j < 31,
    ensures
        ((word << 1u32) >> ((31 - j) as u32)) & 1 == (word >> ((30 - j) as u32)) & 1,
        (word >> 31u32) & 1 == 0 || (word >> 31u32) & 1 == 1,
{
    let a = (31 - j) as u32;
    let b = (30 - j) as u32;
    assert(a == b + 1 && b <= 30 ==> ((word << 1u32) >> a) & 1 == (word >> b) & 1 && ((word >> 31u32) & 1
        == 0 || (word >> 31u32) & 1 == 1)) by (bit_vector);
}

/// The walk after one more bit.
spec fn stepped(s: Seq<u8>, walk: Walk, position: u32, node: u8, low: Option<u8>) -> Walk {
    let refill = walk.remaining == 0;
    let word = if refill { FlatBus::word(s, walk.stream) } else { walk.window };
    Walk {
        position,
        node,
        stream: if refill { walk.stream.wrapping_add(4) } else { walk.stream },
        window: word << 1,
        remaining: (if refill { 31int } else { walk.remaining - 1 }) as u32,
        low,
    }
}

/// Taking a bit takes the next one of the stream.
proof fn lemma_takes_a_bit(
    s: Seq<u8>,
    stream: int,
    walk: Walk,
    k: int,
    position: u32,
    node: u8,
    low: Option<u8>,
)
    requires
        stands(s, stream, walk, k),
        0 <= stream,
        stream + 4 * (k / 32) + 4 <= u32::MAX,
    ensures
        stands(s, stream, stepped(s, walk, position, node, low), k + 1),
        ({
            let word = if walk.remaining == 0 { FlatBus::word(s, walk.stream) } else { walk.window };
            ((word >> 31u32) & 1 == 1) == stream_bit(s, stream, k) && ((word >> 31u32) & 1 == 0 || (word
                >> 31u32) & 1 == 1)
        }),
{
    let refill = walk.remaining == 0;
    let word = if refill { FlatBus::word(s, walk.stream) } else { walk.window };
    let after = stepped(s, walk, position, node, low);
    let left = if refill { 32int } else { walk.remaining as int };
    lemma_shifted(word, 0);
    if refill {
        assert(k % 32 == 0 && k / 32 * 32 == k);
        assert(walk.stream == stream + 4 * (k / 32));
    }
    assert forall|j: int| 0 <= j < left implies ((word >> ((31 - j) as u32)) & 1 == 1) == #[trigger]
        stream_bit(s, stream, k + j) by {
        if refill {
            assert((k + j) / 32 == k / 32 && (k + j) % 32 == j);
        }
    }
    assert(stream_bit(s, stream, k + 0) == ((word >> 31u32) & 1 == 1));
    assert forall|j: int| 0 <= j < after.remaining implies ((after.window >> ((31 - j) as u32)) & 1
        == 1) == #[trigger] stream_bit(s, stream, k + 1 + j) by {
        lemma_shifted(word, j as u32);
        assert(stream_bit(s, stream, k + (j + 1)) == ((word >> ((31 - (j + 1)) as u32)) & 1 == 1));
    }
    assert((k + 1 + after.remaining) == k + left);
    if refill {
        assert((k + 32) / 32 == k / 32 + 1);
    }
}

/// The flags and the distance in a node.
proof fn lemma_node(node: u8)
    ensures
        (node & 0x80 != 0) == (node as int / 128 == 1),
        (node & 0x40 != 0) == (node as int / 64 % 2 == 1),
        node as u32 & 0x3F == node as int % 64,
        node & 0x0F == node as int % 16,
{
    assert((node & 0x80 != 0) == (node / 128 == 1) && (node & 0x40 != 0) == (node / 64 % 2 == 1)
        && node as u32 & 0x3F == (node % 64) as u32) by (bit_vector);
    lemma_nibbles(node);
}

/// Going down a fork to another fork is one step of decoding.
proof fn lemma_down(
    s: Seq<u8>,
    root: u32,
    eight_bit: bool,
    walk: Walk,
    out: Seq<u8>,
    budget: nat,
    data: Seq<u8>,
    stream: int,
    k: int,
    at: int,
)
    requires
        stands(s, stream, walk, k),
        0 <= stream,
        stream + 4 * (k / 32) + 4 <= s.len() <= u32::MAX,
        0 <= walk.position < s.len(),
        walk.node == s[walk.position as int],
        at == walk.position - walk.position % 2 + 2 * (walk.node as int % 64) + 2 + (if stream_bit(
            s,
            stream,
            k,
        ) { 1int } else { 0 }),
        0 <= at < s.len(),
        if stream_bit(s, stream, k) {
            walk.node as int / 64 % 2 == 0
        } else {
            walk.node as int / 128 == 0
        },
        out.len() < data.len(),
        budget > 1,
        gives(
            s,
            root,
            eight_bit,
            stepped(s, walk, at as u32, s[at], walk.low),
            out,
            (budget - 1) as nat,
            data,
        ),
    ensures
        gives(s, root, eight_bit, walk, out, budget, data),
{
    reveal(gives);
    lemma_takes_a_bit(s, stream, walk, k, at as u32, s[at], walk.low);
    lemma_node(walk.node);
    let word = if walk.remaining == 0 { FlatBus::word(s, walk.stream) } else { walk.window };
    assert(child_of(walk.position, walk.node, (word >> 31) & 1) == at);
}

/// Going down a fork to a leaf puts its symbol out.
proof fn lemma_leaf(
    s: Seq<u8>,
    root: u32,
    eight_bit: bool,
    walk: Walk,
    out: Seq<u8>,
    budget: nat,
    data: Seq<u8>,
    stream: int,
    k: int,
    at: int,
    low: Option<u8>,
    longer: Seq<u8>,
)
    requires
        stands(s, stream, walk, k),
        0 <= stream,
        stream + 4 * (k / 32) + 4 <= s.len() <= u32::MAX,
        0 <= walk.position < s.len(),
        root < s.len(),
        walk.node == s[walk.position as int],
        at == walk.position - walk.position % 2 + 2 * (walk.node as int % 64) + 2 + (if stream_bit(
            s,
            stream,
            k,
        ) { 1int } else { 0 }),
        0 <= at < s.len(),
        if stream_bit(s, stream, k) {
            walk.node as int / 64 % 2 == 1
        } else {
            walk.node as int / 128 == 1
        },
        out.len() < data.len(),
        budget > 1,
        if eight_bit {
            low == walk.low && longer == out.push(s[at])
        } else {
            match walk.low {
                None => low == Some((s[at] % 16) as u8) && longer == out,
                Some(first) => first < 16 && low == None::<u8> && longer == out.push(
                    (first + 16 * (s[at] as int % 16)) as u8,
                ),
            }
        },
        gives(
            s,
            root,
            eight_bit,
            stepped(s, walk, root, s[root as int], low),
            longer,
            (budget - 1) as nat,
            data,
        ),
    ensures
        gives(s, root, eight_bit, walk, out, budget, data),
{
    reveal(gives);
    lemma_takes_a_bit(s, stream, walk, k, root, s[root as int], low);
    lemma_node(walk.node);
    let byte = s[at];
    lemma_node(byte);
    let word = if walk.remaining == 0 { FlatBus::word(s, walk.stream) } else { walk.window };
    assert(child_of(walk.position, walk.node, (word >> 31) & 1) == at);
    if !eight_bit && walk.low is Some {
        let first = walk.low->0;
        let second = byte & 0x0F;
        assert(first < 16 && second < 16 ==> first | (second << 4) == first + 16 * second)
            by (bit_vector);
    }
}

/// What is put out once a symbol is reached.
spec fn put_out(eight_bit: bool, low: Option<u8>, out: Seq<u8>, symbol: int) -> (Option<u8>, Seq<u8>) {
    if eight_bit {
        (low, out.push(symbol as u8))
    } else {
        match low {
            None => (Some(symbol as u8), out),
            Some(first) => (None, out.push((first + 16 * symbol) as u8)),
        }
    }
}

/// Decoding from the top of the tree, with `n` symbols out, gives the data.
spec fn goes_on(
    s: Seq<u8>,
    root: u32,
    eight_bit: bool,
    stream: int,
    k: int,
    low: Option<u8>,
    out: Seq<u8>,
    budget: nat,
    data: Seq<u8>,
) -> bool {
    forall|walk: Walk|
        #![trigger gives(s, root, eight_bit, walk, out, budget, data)]
        stands(s, stream, walk, k) && walk.position == root && walk.node == s[root as int] && walk.low
            == low ==> gives(s, root, eight_bit, walk, out, budget, data)
}

/// Going all the way down to a symbol.
proof fn lemma_way_down(
    s: Seq<u8>,
    root: u32,
    eight_bit: bool,
    walk: Walk,
    tree: Tree,
    way: Seq<bool>,
    out: Seq<u8>,
    budget: nat,
    data: Seq<u8>,
    stream: int,
    k: int,
    symbol: int,
)
    requires
        stands(s, stream, walk, k),
        0 <= stream,
        stream + 4 * ((k + way.len()) / 32) + 4 <= s.len() <= u32::MAX,
        root < s.len(),
        walk.node == s[walk.position as int],
        holds_tree(s, walk.position as int, tree),
        tree is Fork,
        0 <= symbol < (if eight_bit { 256int } else { 16 }),
        reached(tree, way) == Some(symbol as u8),
        forall|j: int| 0 <= j < way.len() ==> way[j] == #[trigger] stream_bit(s, stream, k + j),
        !eight_bit ==> (walk.low matches Some(first) ==> first < 16),
        out.len() < data.len(),
        budget > way.len(),
        goes_on(
            s,
            root,
            eight_bit,
            stream,
            k + way.len(),
            put_out(eight_bit, walk.low, out, symbol).0,
            put_out(eight_bit, walk.low, out, symbol).1,
            (budget - way.len()) as nat,
            data,
        ),
    ensures
        gives(s, root, eight_bit, walk, out, budget, data),
    decreases tree,
{
    if let Tree::Fork(left, right) = tree {
        assert(way.len() > 0);
        assert(way[0] == stream_bit(s, stream, k + 0));
        let base = walk.position - walk.position % 2 + 2 * (walk.node as int % 64) + 2;
        let at = base + (if way[0] { 1int } else { 0 });
        let next = if way[0] { *right } else { *left };
        let rest = way.drop_first();
        assert(k / 32 <= (k + way.len()) / 32);
        assert(holds_tree(s, at, next));
        assert(reached(next, rest) == Some(symbol as u8));
        assert(rest.len() == way.len() - 1);
        match next {
            Tree::Leaf(found) => {
                assert(rest.len() == 0);
                let (low, longer) = put_out(eight_bit, walk.low, out, symbol);
                lemma_takes_a_bit(s, stream, walk, k, root, s[root as int], low);
                let after = stepped(s, walk, root, s[root as int], low);
                assert(gives(s, root, eight_bit, after, longer, (budget - 1) as nat, data));
                lemma_leaf(
                    s,
                    root,
                    eight_bit,
                    walk,
                    out,
                    budget,
                    data,
                    stream,
                    k,
                    at,
                    low,
                    longer,
                );
            },
            Tree::Fork(_, _) => {
                lemma_takes_a_bit(s, stream, walk, k, at as u32, s[at], walk.low);
                let after = stepped(s, walk, at as u32, s[at], walk.low);
                assert forall|j: int| 0 <= j < rest.len() implies rest[j] == #[trigger] stream_bit(
                    s,
                    stream,
                    k + 1 + j,
                ) by {
                    assert(way[j + 1] == stream_bit(s, stream, k + (j + 1)));
                }
                assert(rest.len() > 0);
                lemma_way_down(
                    s,
                    root,
                    eight_bit,
                    after,
                    next,
                    rest,
                    out,
                    (budget - 1) as nat,
                    data,
                    stream,
                    k + 1,
                    symbol,
                );
                lemma_down(s, root, eight_bit, walk, out, budget, data, stream, k, at);
            },
        }
    }
}

proof fn lemma_starts_grow(codes: Seq<Seq<bool>>, n: nat, m: nat)
    requires
        n <= m,
    ensures
        0 <= code_start(codes, n) <= code_start(codes, m),
    decreases m,
{
    if n < m {
        lemma_starts_grow(codes, n, (m - 1) as nat);
    } else if n > 0 {
        lemma_starts_grow(codes, (n - 1) as nat, (n - 1) as nat);
    }
}

/// How many symbols some data has.
pub open spec fn symbols_in(data: Seq<u8>, eight_bit: bool) -> nat {
    if eight_bit { data.len() } else { 2 * data.len() }
}

/// What is out, and what half byte is held, after `n` symbols.
spec fn out_after(data: Seq<u8>, eight_bit: bool, n: nat) -> (Option<u8>, Seq<u8>) {
    if eight_bit {
        (None, data.take(n as int))
    } else if n % 2 == 0 {
        (None, data.take(n as int / 2))
    } else {
        (Some((data[n as int / 2] % 16) as u8), data.take(n as int / 2))
    }
}

#[verifier::rlimit(40)]
proof fn lemma_codes_from(
    s: Seq<u8>,
    root: u32,
    eight_bit: bool,
    stream: int,
    tree: Tree,
    codes: Seq<Seq<bool>>,
    data: Seq<u8>,
    n: nat,
    budget: nat,
)
    requires
        n <= codes.len() == symbols_in(data, eight_bit),
        0 <= stream,
        stream + 4 * (code_start(codes, codes.len()) / 32) + 4 <= s.len() <= u32::MAX,
        root < s.len(),
        tree is Fork,
        holds_tree(s, root as int, tree),
        codes_held(s, stream, tree, codes, data, eight_bit),
        budget > code_start(codes, codes.len()) - code_start(codes, n),
    ensures
        goes_on(
            s,
            root,
            eight_bit,
            stream,
            code_start(codes, n),
            out_after(data, eight_bit, n).0,
            out_after(data, eight_bit, n).1,
            budget,
            data,
        ),
    decreases codes.len() - n,
{
    let (low, out) = out_after(data, eight_bit, n);
    let k = code_start(codes, n);
    lemma_starts_grow(codes, n, codes.len());
    assert forall|walk: Walk|
        #![trigger gives(s, root, eight_bit, walk, out, budget, data)]
        stands(s, stream, walk, k) && walk.position == root && walk.node == s[root as int] && walk.low
            == low implies gives(s, root, eight_bit, walk, out, budget, data) by {
        if n == codes.len() {
            reveal(gives);
            assert(out =~= data);
        } else {
            let way = codes[n as int];
            let symbol = symbol_of(data, eight_bit, n as int);
            assert(code_held(s, stream, tree, codes, data, eight_bit, n));
            lemma_starts_grow(codes, n + 1, codes.len());
            assert(code_start(codes, n + 1) == k + way.len());
            lemma_codes_from(
                s,
                root,
                eight_bit,
                stream,
                tree,
                codes,
                data,
                n + 1,
                (budget - way.len()) as nat,
            );
            let (next_low, longer) = out_after(data, eight_bit, n + 1);
            lemma_puts_out(data, eight_bit, n);
            assert((k + way.len()) / 32 <= code_start(codes, codes.len()) / 32);
            lemma_way_down(
                s,
                root,
                eight_bit,
                walk,
                tree,
                way,
                out,
                budget,
                data,
                stream,
                k,
                symbol,
            );
        }
    }
}

/// Putting the next symbol out makes the next bytes of the data.
proof fn lemma_puts_out(data: Seq<u8>, eight_bit: bool, n: nat)
    requires
        n < symbols_in(data, eight_bit),
    ensures
        ({
            let (low, out) = out_after(data, eight_bit, n);
            put_out(eight_bit, low, out, symbol_of(data, eight_bit, n as int)) == out_after(
                data,
                eight_bit,
                n + 1,
            ) && out.len() < data.len()
        }),
{
    let (low, out) = out_after(data, eight_bit, n);
    if eight_bit {
        assert(out.push(data[n as int]) =~= data.take(n as int + 1));
    } else if n % 2 == 0 {
        assert((n + 1) as int / 2 == n as int / 2);
    } else {
        let at = n as int / 2;
        assert((n + 1) as int / 2 == at + 1);
        assert(data[at] as int % 16 + 16 * (data[at] as int / 16) == data[at]);
        assert(out.push(data[at]) =~= data.take(at + 1));
    }
}

/// Huffman decoding inverts encoding: for any tree of symbols and any data, memory that holds the tree
/// and behind it the code of each symbol in turn decodes to the data. The header's low digit says how
/// many bits a symbol has. The codes come to no more than 256 bits for each byte.
pub proof fn law_huffman_inverts_encoding(
    s: Seq<u8>,
    source: u32,
    header: u32,
    tree: Tree,
    codes: Seq<Seq<bool>>,
    data: Seq<u8>,
)
    requires
        header % 16 == 4 || header % 16 == 8,
        source + 5 < s.len() <= u32::MAX,
        tree is Fork,
        holds_tree(s, source + 5, tree),
        codes.len() == symbols_in(data, header % 16 == 8),
        code_start(codes, codes.len()) <= 256 * data.len(),
        ({
            let stream = source + 4 + 2 * (s[source + 4] + 1);
            &&& stream + 4 * (code_start(codes, codes.len()) / 32) + 4 <= s.len()
            &&& codes_held(s, stream, tree, codes, data, header % 16 == 8)
        }),
    ensures
        huffman_stream::<FlatBus>(s, source, header, data.len() as int).out == data,
{
    vstd::bits::lemma_low_bits_mask_values();
    vstd::arithmetic::power2::lemma2_to64();
    crate::bits::lemma_field_u32(header, 0, 4);
    let eight_bit = header % 16 == 8;
    let root = (source + 5) as u32;
    let stream = source + 4 + 2 * (s[source + 4] + 1);
    let budget = (data.len() * 256 + 1024) as nat;
    lemma_starts_grow(codes, 0, codes.len());
    lemma_codes_from(s, root, eight_bit, stream, tree, codes, data, 0, budget);
    let walk = Walk {
        position: root,
        node: s[root as int],
        stream: (stream + 4) as u32,
        window: FlatBus::word(s, stream as u32),
        remaining: 32,
        low: None,
    };
    assert(out_after(data, eight_bit, 0).1 =~= Seq::empty());
    assert(stands(s, stream, walk, 0));
    assert(gives(s, root, eight_bit, walk, Seq::empty(), budget, data));
    reveal(gives);
}

/// Decoding reads flat memory and leaves it alone.
pub proof fn law_decoding_changes_no_memory(
    s: Seq<u8>,
    source: u32,
    header: u32,
    decoder: Decoder,
    size: nat,
)
    ensures
        decoded::<FlatBus>(s, source, header, decoder, size).bus == s,
{
    let data = source.wrapping_add(4);
    match decoder {
        Decoder::Lz77 => lemma_lz77_reads(s, data, 0, 8, Seq::empty(), size as int),
        Decoder::RunLength => lemma_run_length_reads(s, data, Seq::empty(), size as int),
        Decoder::Huffman => {
            let root = data.wrapping_add(1);
            let stream = data.wrapping_add(((FlatBus::byte(s, data) + 1) * 2) as u32);
            lemma_huffman_reads(
                s,
                root,
                header & 0x0F == 8,
                Walk {
                    position: root,
                    node: FlatBus::byte(s, root),
                    stream: stream.wrapping_add(4),
                    window: FlatBus::word(s, stream),
                    remaining: 32,
                    low: None,
                },
                Seq::empty(),
                size as int,
                (size * 256 + 1024) as nat,
            );
        },
        Decoder::Diff8 => lemma_diff8_reads(s, data, 0, Seq::empty(), size),
        Decoder::Diff16 => lemma_diff16_reads(s, data, 0, Seq::empty(), size / 2),
    }
}

proof fn lemma_lz77_reads(s: Seq<u8>, at: u32, flags: u8, bit: nat, out: Seq<u8>, size: int)
    ensures
        lz77::<FlatBus>(s, at, flags, bit, out, size).bus == s,
    decreases size - out.len(), (if bit >= 8 { 1nat } else { 0nat }),
{
    if out.len() >= size {
    } else if bit >= 8 {
        lemma_lz77_reads(s, at.wrapping_add(1), FlatBus::byte(s, at), 0, out, size);
    } else if flags & (0x80u8 >> (bit as u8)) == 0 {
        lemma_lz77_reads(
            s,
            at.wrapping_add(1),
            flags,
            bit + 1,
            out.push(FlatBus::byte(s, at)),
            size,
        );
    } else {
        let first = FlatBus::byte(s, at);
        let second = FlatBus::byte(s, at.wrapping_add(1));
        let distance = (first % 16) * 0x100 + second + 1;
        if distance <= out.len() {
            let from = out.len() - distance;
            let count = (first / 16 + 3) as nat;
            super::decode::lemma_copied_grows(out, from, count, size);
            lemma_lz77_reads(
                s,
                at.wrapping_add(2),
                flags,
                bit + 1,
                super::decode::copied(out, from, count, size),
                size,
            );
        }
    }
}

proof fn lemma_literals_read(s: Seq<u8>, at: u32, count: nat, out: Seq<u8>, size: int)
    ensures
        literals::<FlatBus>(s, at, count, out, size).0 == s,
    decreases count,
{
    if count > 0 && out.len() < size {
        lemma_literals_read(
            s,
            at.wrapping_add(1),
            (count - 1) as nat,
            out.push(FlatBus::byte(s, at)),
            size,
        );
    }
}

proof fn lemma_run_length_reads(s: Seq<u8>, at: u32, out: Seq<u8>, size: int)
    ensures
        run_length::<FlatBus>(s, at, out, size).bus == s,
    decreases size - out.len(),
{
    if out.len() < size {
        let flag = FlatBus::byte(s, at);
        let data = at.wrapping_add(1);
        if flag < 0x80 {
            let (s2, next, longer) = literals::<FlatBus>(s, data, (flag + 1) as nat, out, size);
            lemma_literals_read(s, data, (flag + 1) as nat, out, size);
            super::decode::lemma_literals_grow::<FlatBus>(s, data, (flag + 1) as nat, out, size);
            lemma_run_length_reads(s, next, longer, size);
        } else {
            let count = (flag - 0x80 + 3) as nat;
            let byte = FlatBus::byte(s, data);
            super::decode::lemma_repeated_grows(out, byte, count, size);
            lemma_run_length_reads(s, data.wrapping_add(1), repeated(out, byte, count, size), size);
        }
    }
}

proof fn lemma_huffman_reads(
    s: Seq<u8>,
    root: u32,
    eight_bit: bool,
    walk: Walk,
    out: Seq<u8>,
    size: int,
    budget: nat,
)
    ensures
        huffman::<FlatBus>(s, root, eight_bit, walk, out, size, budget).bus == s,
    decreases budget,
{
    if out.len() < size && budget > 1 {
        let refill = walk.remaining == 0;
        let word = if refill { FlatBus::word(s, walk.stream) } else { walk.window };
        let bit = (word >> 31) & 1;
        let child = child_of(walk.position, walk.node, bit);
        let byte = FlatBus::byte(s, child);
        if walk.node & (if bit == 0 { 0x80u8 } else { 0x40u8 }) != 0 {
            let (low, longer) = if eight_bit {
                (walk.low, out.push(byte))
            } else {
                match walk.low {
                    None => (Some(byte & 0x0F), out),
                    Some(low) => (None, out.push(low | ((byte & 0x0F) << 4))),
                }
            };
            lemma_huffman_reads(
                s,
                root,
                eight_bit,
                stepped(s, walk, root, FlatBus::byte(s, root), low),
                longer,
                size,
                (budget - 1) as nat,
            );
        } else {
            lemma_huffman_reads(
                s,
                root,
                eight_bit,
                stepped(s, walk, child, byte, walk.low),
                out,
                size,
                (budget - 1) as nat,
            );
        }
    }
}

proof fn lemma_diff8_reads(s: Seq<u8>, at: u32, value: u8, out: Seq<u8>, count: nat)
    ensures
        diff8::<FlatBus>(s, at, value, out, count).bus == s,
    decreases count,
{
    if count > 0 {
        let next = value.wrapping_add(FlatBus::byte(s, at));
        lemma_diff8_reads(s, at.wrapping_add(1), next, out.push(next), (count - 1) as nat);
    }
}

proof fn lemma_diff16_reads(s: Seq<u8>, at: u32, value: u16, out: Seq<u8>, count: nat)
    ensures
        diff16::<FlatBus>(s, at, value, out, count).bus == s,
    decreases count,
{
    if count > 0 {
        let next = value.wrapping_add(FlatBus::half(s, at));
        lemma_diff16_reads(
            s,
            at.wrapping_add(2),
            next,
            out.push((next % 0x100) as u8).push((next / 0x100) as u8),
            (count - 1) as nat,
        );
    }
}

/// Flat memory with some bytes put in at an address.
pub open spec fn with_bytes(s: Seq<u8>, to: int, bytes: Seq<u8>) -> Seq<u8> {
    s.take(to) + bytes + s.skip(to + bytes.len())
}

proof fn lemma_bytes_written(s: Seq<u8>, t: Seq<u8>, to: u32, bytes: Seq<u8>, index: nat)
    requires
        index <= bytes.len(),
        to + bytes.len() <= s.len() <= u32::MAX,
        t == with_bytes(s, to as int, bytes.take(index as int)),
    ensures
        bytes_written::<FlatBus>(t, to, bytes, index) == with_bytes(s, to as int, bytes),
    decreases bytes.len() - index,
{
    if index == bytes.len() {
        assert(bytes.take(index as int) =~= bytes);
    } else {
        let next = t.update(to + index, bytes[index as int]);
        assert(next =~= with_bytes(s, to as int, bytes.take(index as int + 1)));
        lemma_bytes_written(s, next, to, bytes, index + 1);
    }
}

proof fn lemma_pairs_written(s: Seq<u8>, t: Seq<u8>, to: u32, bytes: Seq<u8>, index: nat)
    requires
        index <= bytes.len(),
        index % 2 == 0,
        bytes.len() % 2 == 0,
        to + bytes.len() <= s.len() <= u32::MAX,
        t == with_bytes(s, to as int, bytes.take(index as int)),
    ensures
        pairs_written::<FlatBus>(t, to, bytes, index) == with_bytes(s, to as int, bytes),
    decreases bytes.len() - index,
{
    if index == bytes.len() {
        assert(bytes.take(index as int) =~= bytes);
    } else {
        let (low, high) = (bytes[index as int], bytes[index as int + 1]);
        let value = (low + 0x100 * high) as u16;
        assert(value % 0x100 == low && value / 0x100 == high);
        let next = t.update(to + index, low).update(to + index + 1, high);
        assert(next =~= with_bytes(s, to as int, bytes.take(index as int + 2)));
        lemma_pairs_written(s, next, to, bytes, index + 2);
    }
}

/// The odd byte at the end goes out with a zero behind it.
proof fn lemma_padded(s: Seq<u8>, to: u32, bytes: Seq<u8>, index: nat)
    requires
        bytes.len() % 2 == 1,
        index % 2 == 0,
    ensures
        pairs_written::<FlatBus>(s, to, bytes, index) == pairs_written::<FlatBus>(
            s,
            to,
            bytes.push(0),
            index,
        ),
    decreases bytes.len() + 1 - index,
{
    if index < bytes.len() {
        let high = if index + 1 < bytes.len() { bytes[index as int + 1] } else { 0 };
        let next = FlatBus::after_write16(
            s,
            to.wrapping_add(index as u32),
            (bytes[index as int] + 0x100 * high) as u16,
        );
        lemma_padded(next, to, bytes, index + 2);
    }
}

/// A decompression call puts what its header names into memory: the data that the stream behind the
/// header decodes to stands at the destination, and nothing else has changed. The calls for video
/// memory write in pairs, so an odd byte at the end has a zero behind it.
pub proof fn law_unpacking_delivers_the_data(
    s: Seq<u8>,
    source: u32,
    destination: u32,
    decoder: Decoder,
    vram: bool,
    data: Seq<u8>,
)
    requires
        source + 4 <= s.len() <= u32::MAX,
        1 <= data.len() <= UNPACK_LIMIT,
        destination + data.len() + 1 <= s.len(),
        s[source + 1] + 0x100 * s[source + 2] + 0x1_0000 * s[source + 3] == data.len(),
        decoded::<FlatBus>(s, source, FlatBus::word(s, source), decoder, data.len()).out == data,
    ensures
        unpacked::<FlatBus>(s, source, destination, decoder, vram) == with_bytes(
            s,
            destination as int,
            if vram && data.len() % 2 == 1 { data.push(0) } else { data },
        ),
{
    let header = FlatBus::word(s, source);
    assert(header / 0x100 == data.len());
    law_decoding_changes_no_memory(s, source, header, decoder, data.len());
    assert(s =~= with_bytes(s, destination as int, data.take(0)));
    assert(s =~= with_bytes(s, destination as int, data.push(0).take(0)));
    if !vram {
        lemma_bytes_written(s, s, destination, data, 0);
    } else if data.len() % 2 == 0 {
        lemma_pairs_written(s, s, destination, data, 0);
    } else {
        lemma_padded(s, destination, data, 0);
        lemma_pairs_written(s, s, destination, data.push(0), 0);
    }
}

/// Each call unpacks its own format, with the source in `r0` and the destination in `r1`, and leaves
/// the registers as they were.
pub proof fn law_each_call_unpacks_its_format(
    core: crate::nds::Core,
    comment: u8,
    r: Seq<u32>,
    s: Seq<u8>,
    flags: u32,
    waiting: bool,
)
    requires
        0x11 <= comment <= 0x15 || core == crate::nds::Core::Arm9 && (comment == 0x16 || comment == 0x18),
    ensures
        ({
            let after = super::outcome::<FlatBus>(
                super::call_of(core, comment),
                r,
                s,
                flags,
                waiting,
            );
            let decoder = if comment <= 0x12 {
                Decoder::Lz77
            } else if comment == 0x13 {
                Decoder::Huffman
            } else if comment <= 0x15 {
                Decoder::RunLength
            } else if comment == 0x16 {
                Decoder::Diff8
            } else {
                Decoder::Diff16
            };
            let vram = comment == 0x12 || comment == 0x13 || comment == 0x15 || comment == 0x18;
            &&& after.registers == r
            &&& after.bus == unpacked::<FlatBus>(s, r[0], r[1], decoder, vram)
            &&& !after.effect.halt && !after.effect.repeat
        }),
{
}

} // verus!
