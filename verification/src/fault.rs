//! What can be wrong with a saved state that is long enough.

use vstd::prelude::*;
use crate::text::{number, push_number, push_str};

verus! {

/// What a state counts before it lists it.
#[derive(Clone, Copy, Debug, PartialEq, Eq, Structural)]
pub enum Counted {
    /// Words of a card transfer.
    CardWords,
    /// Opcodes in the geometry FIFO.
    QueuedOpcodes,
    /// Parameters in the geometry FIFO.
    QueuedParameters,
    /// Parameters of a command fed through its own port.
    PortParameters,
    /// Corners of one polygon.
    PolygonVertices,
    /// Vertices of a display list.
    ListVertices,
    /// Polygons of a display list.
    ListPolygons,
}

impl Counted {
    /// The most that a running machine can have.
    #[verifier::allow_in_spec]
    pub fn most(self) -> u64
        returns
            (match self {
                Counted::CardWords => 0x400u64,
                Counted::QueuedOpcodes => 0x400,
                Counted::QueuedParameters => 0x400,
                Counted::PortParameters => 32,
                Counted::PolygonVertices => 6144,
                Counted::ListVertices => 6144,
                Counted::ListPolygons => 2048,
            }),
    {
        match self {
            Counted::CardWords => 0x400,
            Counted::QueuedOpcodes => 0x400,
            Counted::QueuedParameters => 0x400,
            Counted::PortParameters => 32,
            Counted::PolygonVertices => 6144,
            Counted::ListVertices => 6144,
            Counted::ListPolygons => 2048,
        }
    }

    /// How the complaint about a count begins and ends. The count stands between them.
    pub open spec fn complaint(self) -> (Seq<char>, Seq<char>) {
        match self {
            Counted::CardWords => (
                "card transfer of "@,
                " words is larger than any block"@,
            ),
            Counted::QueuedOpcodes => ("the geometry FIFO claims "@, " queued opcodes"@),
            Counted::QueuedParameters => ("the geometry FIFO claims "@, " queued parameters"@),
            Counted::PortParameters => (
                "a port command claims "@,
                " parameters, more than any command takes"@,
            ),
            Counted::PolygonVertices => (
                "a polygon claims "@,
                " vertices; the whole list holds at most "@ + number(6144, 10),
            ),
            Counted::ListVertices => (
                "a display list claims "@,
                " vertices; hardware allows at most "@ + number(6144, 10),
            ),
            Counted::ListPolygons => (
                "a display list claims "@,
                " polygons; hardware allows at most "@ + number(2048, 10),
            ),
        }
    }
}

/// Why a state was rejected for what it holds.
#[derive(Clone, Copy, Debug, PartialEq, Eq, Structural)]
pub enum Fault {
    /// A count past what a running machine can have.
    TooMany(Counted, u64),
    /// A VRAM DMA mode that does not exist.
    HdmaMode(u8),
    /// A queue whose indices lie outside its ring.
    RingIndices,
}

impl Fault {
    /// What was wrong, in words.
    pub open spec fn text(self) -> Seq<char> {
        match self {
            Fault::TooMany(what, count) => what.complaint().0 + number(count as nat, 10)
                + what.complaint().1,
            Fault::HdmaMode(mode) => "bad HDMA mode "@ + number(mode as nat, 10),
            Fault::RingIndices => "IPC FIFO ring indices are out of range"@,
        }
    }

    /// What was wrong, in words.
    pub fn message(&self) -> (r: String)
        ensures
            r@ == self.text(),
    {
        let mut out = String::new();
        match *self {
            Fault::TooMany(what, count) => {
                let (before, after, limited) = match what {
                    Counted::CardWords => (
                        "card transfer of ",
                        " words is larger than any block",
                        false,
                    ),
                    Counted::QueuedOpcodes => (
                        "the geometry FIFO claims ",
                        " queued opcodes",
                        false,
                    ),
                    Counted::QueuedParameters => (
                        "the geometry FIFO claims ",
                        " queued parameters",
                        false,
                    ),
                    Counted::PortParameters => (
                        "a port command claims ",
                        " parameters, more than any command takes",
                        false,
                    ),
                    Counted::PolygonVertices => (
                        "a polygon claims ",
                        " vertices; the whole list holds at most ",
                        true,
                    ),
                    Counted::ListVertices => (
                        "a display list claims ",
                        " vertices; hardware allows at most ",
                        true,
                    ),
                    Counted::ListPolygons => (
                        "a display list claims ",
                        " polygons; hardware allows at most ",
                        true,
                    ),
                };
                push_str(&mut out, before);
                push_number(&mut out, count, 10);
                push_str(&mut out, after);
                if limited {
                    push_number(&mut out, what.most(), 10);
                }
            },
            Fault::HdmaMode(mode) => {
                push_str(&mut out, "bad HDMA mode ");
                push_number(&mut out, mode as u64, 10);
            },
            Fault::RingIndices => {
                push_str(&mut out, "IPC FIFO ring indices are out of range");
            },
        }
        assert(out@ =~= self.text());
        out
    }
}

} // verus!
