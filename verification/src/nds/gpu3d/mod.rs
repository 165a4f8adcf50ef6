//! The 3D core: the command FIFO, the geometry engine, and the software rasteriser.
//!
//! Software drives the engine either by writing packed commands to `GXFIFO` (four one-byte opcodes
//! in a word, then all their parameters in order) or by writing parameters straight to a
//! per-command port at `0x0400_0400 + opcode * 4`. Both end in the same execution of an opcode
//! with its parameters.
//!
//! `SWAP_BUFFERS` does not take effect where it appears. It marks the display list complete, and
//! the frame is rasterised at the next vertical blank.

pub mod clipping;
pub mod geometry;
pub mod geometry_laws;
pub mod matrix;
pub mod matrix_laws;
pub mod reg;
pub mod render;
pub mod render_laws;
pub mod texture_laws;

use vstd::prelude::*;
use crate::arrays;
use crate::bits::{align2, align4};
use crate::fault::Counted;
use crate::state;
use crate::state::{StateError, StateReader, StateWriter};
use crate::nds::vram::Vram;
use self::geometry::{parameter_count, parameters_of, Geometry, GeometryState};
use self::render::{clear_pixel, rendered, FrameState, Framebuffer3d, Pixel, FARTHEST, PIXELS};

verus! {

/// The packed command FIFO.
pub const GXFIFO: u32 = 0x0400_0400;

/// The per-command ports run from `MTX_MODE` up.
pub const PORT_BASE: u32 = 0x0400_0440;

pub const PORT_END: u32 = 0x0400_05D0;

/// What the 3D core holds.
#[verifier::ext_equal]
pub struct Gpu3dState {
    pub geometry: GeometryState,
    pub frame: FrameState,
    pub disp3dcnt: u16,
    pub clear_color: u32,
    pub clear_depth: u32,
    pub gxstat_irq: u8,
    /// Opcodes waiting for their parameters.
    pub pending: Seq<u8>,
    pub params: Seq<u32>,
    /// A command being fed through its own port.
    pub port: Option<(u8, Seq<u32>)>,
    pub toon: Seq<u16>,
    pub edge_color: Seq<u16>,
    pub fog_color: u32,
    pub alpha_test_ref: u8,
}

/// The core as read from a stream: what it became, where reading stopped, and why.
#[verifier::ext_equal]
pub struct GpuRun {
    pub state: Gpu3dState,
    pub at: int,
    pub error: Option<StateError>,
}

/// How many parameters an opcode waits for. One that does not exist waits for none.
pub open spec fn arity(opcode: u8) -> int {
    match parameters_of(opcode) {
        None => 0,
        Some(n) => n as int,
    }
}

/// The geometry engine and the queue once every command whose parameters have all arrived was
/// executed. Parameters that are left when no opcode is belonged to nothing.
pub open spec fn drained(geometry: GeometryState, pending: Seq<u8>, params: Seq<u32>) -> (
    GeometryState,
    Seq<u8>,
    Seq<u32>,
)
    decreases pending.len(),
{
    if pending.len() == 0 {
        (geometry, pending, Seq::empty())
    } else {
        let count = arity(pending[0]);
        if params.len() < count {
            (geometry, pending, params)
        } else {
            drained(
                geometry.executed(pending[0], params.take(count)),
                pending.skip(1),
                params.skip(count),
            )
        }
    }
}

/// The four opcodes in a word, lowest byte first.
pub open spec fn unpacked(value: u32) -> Seq<u8> {
    seq![value as u8, (value >> 8) as u8, (value >> 16) as u8, (value >> 24) as u8]
}

/// The address belongs to the 3D core, from the ARM9's point of view.
pub open spec fn owned(addr: u32) -> bool {
    ||| GXFIFO <= addr < GXFIFO + 0x40
    ||| PORT_BASE <= addr < PORT_END
    ||| reg::GXSTAT <= addr < reg::GXSTAT + 0x20
    ||| reg::POS_RESULT <= addr < reg::VEC_RESULT + 12
    ||| reg::EDGE_COLOR <= addr < reg::EDGE_COLOR + 16
    ||| reg::TOON_TABLE <= addr < reg::TOON_TABLE + 64
    ||| {
        let word = align4(addr);
        word == reg::DISP3DCNT || word == reg::ALPHA_TEST_REF || word == reg::CLEAR_COLOR || word
            == reg::CLEAR_DEPTH || word == reg::FOG_COLOR
    }
}

/// A word written here would run past the end of its table.
pub open spec fn overruns(addr: u32) -> bool {
    ||| reg::EDGE_COLOR + 14 <= addr < reg::EDGE_COLOR + 16
    ||| reg::TOON_TABLE + 62 <= addr < reg::TOON_TABLE + 64
}

/// A table with two neighbouring entries replaced by the halves of a word.
pub open spec fn with_pair(table: Seq<u16>, index: int, value: u32) -> Seq<u16> {
    table.update(index, value as u16).update(index + 1, (value >> 16) as u16)
}

impl Gpu3dState {
    /// A freshly powered core.
    pub open spec fn initial() -> Gpu3dState {
        Gpu3dState {
            geometry: GeometryState::initial(),
            frame: FrameState::uniform(
                Pixel { color: 0, alpha: 0, depth: FARTHEST, polygon_id: 0 },
            ),
            disp3dcnt: 0,
            clear_color: 0,
            clear_depth: 0x7FFF,
            gxstat_irq: 0,
            pending: Seq::empty(),
            params: Seq::empty(),
            port: None,
            toon: Seq::new(32, |i: int| 0u16),
            edge_color: Seq::new(8, |i: int| 0u16),
            fog_color: 0,
            alpha_test_ref: 0,
        }
    }

    /// The core after a reset. The tables and the interrupt mode stay.
    pub open spec fn cleared(self) -> Gpu3dState {
        let fresh = Gpu3dState::initial();
        Gpu3dState {
            gxstat_irq: self.gxstat_irq,
            toon: self.toon,
            edge_color: self.edge_color,
            fog_color: self.fog_color,
            alpha_test_ref: self.alpha_test_ref,
            ..fresh
        }
    }

    /// The core after running every command that is ready.
    pub open spec fn run(self) -> Gpu3dState {
        let (geometry, pending, params) = drained(self.geometry, self.pending, self.params);
        Gpu3dState { geometry, pending, params, ..self }
    }

    /// A word written to `GXFIFO`: four packed opcodes, or a parameter of one that waits.
    #[verifier::opaque]
    pub open spec fn fed(self, value: u32) -> Gpu3dState {
        if self.pending.len() == 0 {
            Gpu3dState { pending: unpacked(value), ..self }.run()
        } else {
            Gpu3dState { params: self.params.push(value), ..self }.run()
        }
    }

    /// A word written to a command's own port. A write to a different port abandons whatever was
    /// part-way through.
    #[verifier::opaque]
    pub open spec fn ported(self, opcode: u8, value: u32) -> Gpu3dState {
        let count = arity(opcode);
        if count == 0 {
            Gpu3dState { geometry: self.geometry.executed(opcode, Seq::empty()), ..self }
        } else {
            let so_far = match self.port {
                Some((open, params)) if open == opcode => params,
                _ => Seq::empty(),
            };
            let params = so_far.push(value);
            if params.len() >= count {
                Gpu3dState {
                    geometry: self.geometry.executed(opcode, params),
                    port: None,
                    ..self
                }
            } else {
                Gpu3dState { port: Some((opcode, params)), ..self }
            }
        }
    }

    /// A word written to a register.
    pub open spec fn written(self, addr: u32, value: u32) -> Gpu3dState {
        let word = align4(addr);
        if GXFIFO <= addr < GXFIFO + 0x40 {
            self.fed(value)
        } else if PORT_BASE <= addr < PORT_END {
            self.ported(((addr - GXFIFO) / 4) as u8, value)
        } else if word == reg::DISP3DCNT {
            Gpu3dState { disp3dcnt: value as u16, ..self }
        } else if word == reg::CLEAR_COLOR {
            Gpu3dState { clear_color: value, ..self }
        } else if word == reg::CLEAR_DEPTH {
            Gpu3dState { clear_depth: value & 0x7FFF, ..self }
        } else if word == reg::ALPHA_TEST_REF {
            Gpu3dState { alpha_test_ref: value as u8, ..self }
        } else if word == reg::FOG_COLOR {
            Gpu3dState { fog_color: value, ..self }
        } else if word == reg::GXSTAT {
            Gpu3dState { gxstat_irq: (value >> 30) as u8, ..self }
        } else if reg::EDGE_COLOR <= addr < reg::EDGE_COLOR + 16 {
            Gpu3dState {
                edge_color: with_pair(self.edge_color, (addr - reg::EDGE_COLOR) / 2, value),
                ..self
            }
        } else if reg::TOON_TABLE <= addr < reg::TOON_TABLE + 64 {
            Gpu3dState {
                toon: with_pair(self.toon, (addr - reg::TOON_TABLE) / 2, value),
                ..self
            }
        } else {
            self
        }
    }

    /// A register takes a word written to this address.
    pub open spec fn takes(addr: u32) -> bool {
        let word = align4(addr);
        ||| GXFIFO <= addr < GXFIFO + 0x40
        ||| PORT_BASE <= addr < PORT_END
        ||| word == reg::DISP3DCNT
        ||| word == reg::CLEAR_COLOR
        ||| word == reg::CLEAR_DEPTH
        ||| word == reg::ALPHA_TEST_REF
        ||| word == reg::FOG_COLOR
        ||| word == reg::GXSTAT
        ||| reg::EDGE_COLOR <= addr < reg::EDGE_COLOR + 16
        ||| reg::TOON_TABLE <= addr < reg::TOON_TABLE + 64
    }

    /// `GXSTAT`: the stack pointer, the error flag, a FIFO that is always empty, and the interrupt
    /// mode.
    pub open spec fn gxstat(self) -> u32 {
        let pointer = (self.geometry.matrices.pointer as u32 & 0x1F) << 8;
        let error = if self.geometry.matrices.overflow || self.geometry.overflow {
            1u32 << 15
        } else {
            0
        };
        pointer | error | (1u32 << 25) | (1u32 << 26) | ((self.gxstat_irq as u32) << 30)
    }

    /// The word at an address, where there is one.
    pub open spec fn word(self, addr: u32) -> Option<u32> {
        let word = align4(addr);
        if word == reg::DISP3DCNT {
            Some(self.disp3dcnt as u32)
        } else if word == reg::CLEAR_COLOR {
            Some(self.clear_color)
        } else if word == reg::CLEAR_DEPTH {
            Some(self.clear_depth)
        } else if word == reg::GXSTAT {
            Some(self.gxstat())
        } else if word == reg::RAM_COUNT {
            Some(
                (self.geometry.building.polygons.len() as u32 & 0x1FFF) | ((
                self.geometry.building.vertices.len() as u32 & 0x1FFF) << 16),
            )
        } else if reg::POS_RESULT <= addr < reg::POS_RESULT + 16 {
            Some(self.geometry.pos_result[(addr - reg::POS_RESULT) / 4] as u32)
        } else if reg::VEC_RESULT <= addr < reg::VEC_RESULT + 12 {
            Some(self.geometry.vec_result[(addr - reg::VEC_RESULT) / 4] as u32 & 0xFFFF)
        } else if reg::EDGE_COLOR <= addr < reg::EDGE_COLOR + 16 {
            Some(0)
        } else if reg::TOON_TABLE <= addr < reg::TOON_TABLE + 64 {
            Some(0)
        } else {
            None
        }
    }

    /// The halfword at an address, where there is one.
    pub open spec fn half(self, addr: u32) -> Option<u16> {
        match self.word(align4(addr)) {
            None => None,
            Some(word) => Some(if addr % 4 < 2 { word as u16 } else { (word >> 16) as u16 }),
        }
    }

    /// The word that a halfword write amounts to.
    pub open spec fn spliced(self, addr: u32, value: u16) -> u32 {
        let current = match self.word(align4(addr)) {
            None => 0,
            Some(word) => word,
        };
        if addr % 4 < 2 {
            (current & 0xFFFF_0000) | value as u32
        } else {
            (current & 0xFFFF) | ((value as u32) << 16)
        }
    }

    /// A halfword written to a register. The command ports and the FIFO take words only.
    pub open spec fn written16(self, addr: u32, value: u16) -> Gpu3dState {
        if GXFIFO <= addr < PORT_END {
            self
        } else {
            self.written(align4(addr), self.spliced(addr, value))
        }
    }

    /// The halfword that a byte write amounts to.
    pub open spec fn spliced8(self, addr: u32, value: u8) -> u16 {
        let current = match self.half(align2(addr)) {
            None => 0,
            Some(half) => half,
        };
        if addr % 2 == 0 {
            (current & 0xFF00) | value as u16
        } else {
            (current & 0x00FF) | ((value as u16) << 8)
        }
    }
}

/// The 3D core.
#[derive(Debug)]
pub struct Gpu3d {
    pub geometry: Geometry,
    pub framebuffer: Framebuffer3d,
    pub disp3dcnt: u16,
    pub clear_color: u32,
    pub clear_depth: u32,
    /// `GXSTAT`'s interrupt mode, bits 30-31: 0 never, 1 when the FIFO is less than half full,
    /// 2 when it is empty.
    pub gxstat_irq: u8,
    /// Opcodes waiting for their parameters, from a packed `GXFIFO` word.
    pub pending: Vec<u8>,
    pub params: Vec<u32>,
    /// A command being fed through its own port rather than through the FIFO.
    pub port: Option<(u8, Vec<u32>)>,
    /// The toon table, edge colours, and the fog block: kept, and not drawn with.
    pub toon: [u16; 32],
    pub edge_color: [u16; 8],
    pub fog_color: u32,
    pub alpha_test_ref: u8,
}

impl View for Gpu3d {
    type V = Gpu3dState;

    open spec fn view(&self) -> Gpu3dState {
        Gpu3dState {
            geometry: self.geometry@,
            frame: self.framebuffer@,
            disp3dcnt: self.disp3dcnt,
            clear_color: self.clear_color,
            clear_depth: self.clear_depth,
            gxstat_irq: self.gxstat_irq,
            pending: self.pending@,
            params: self.params@,
            port: match self.port {
                None => None,
                Some((opcode, params)) => Some((opcode, params@)),
            },
            toon: self.toon@,
            edge_color: self.edge_color@,
            fog_color: self.fog_color,
            alpha_test_ref: self.alpha_test_ref,
        }
    }
}

impl Default for Gpu3d {
    fn default() -> (r: Self)
        ensures
            r.wf(),
            r@ == Gpu3dState::initial(),
    {
        Gpu3d::new()
    }
}

impl Gpu3d {
    /// The parts are in order, and what waits for parameters keeps within bounds.
    pub open spec fn wf(&self) -> bool {
        &&& self.geometry.wf()
        &&& self.framebuffer@.whole()
        &&& self.pending@.len() <= 0x400
        &&& self.params@.len() <= 0x400
        &&& self.port matches Some(p) ==> p.1@.len() <= 32
    }

    pub fn new() -> (r: Self)
        ensures
            r.wf(),
            r@ == Gpu3dState::initial(),
    {
        let r = Gpu3d {
            geometry: Geometry::new(),
            framebuffer: Framebuffer3d::new(),
            disp3dcnt: 0,
            clear_color: 0,
            clear_depth: 0x7FFF,
            gxstat_irq: 0,
            pending: Vec::new(),
            params: Vec::new(),
            port: None,
            toon: arrays::filled(0),
            edge_color: arrays::filled(0),
            fog_color: 0,
            alpha_test_ref: 0,
        };
        assert(r@ =~= Gpu3dState::initial());
        r
    }

    /// Whether this address belongs to the 3D core, from the ARM9's point of view.
    pub fn owns(addr: u32) -> (r: bool)
        ensures
            r == owned(addr),
    {
        let word = align4(addr);
        (GXFIFO <= addr && addr < GXFIFO + 0x40) || (PORT_BASE <= addr && addr < PORT_END) || (
        reg::GXSTAT <= addr && addr < reg::GXSTAT + 0x20) || (reg::POS_RESULT <= addr && addr
            < reg::VEC_RESULT + 12) || (reg::EDGE_COLOR <= addr && addr < reg::EDGE_COLOR + 16) || (
        reg::TOON_TABLE <= addr && addr < reg::TOON_TABLE + 64) || word == reg::DISP3DCNT || word
            == reg::ALPHA_TEST_REF || word == reg::CLEAR_COLOR || word == reg::CLEAR_DEPTH || word
            == reg::FOG_COLOR
    }

    /// Whether the 3D layer should be composited at all.
    pub fn enabled(&self) -> (r: bool)
        ensures
            r == (self@.disp3dcnt & 1 != 0),
    {
        self.disp3dcnt & 1 != 0
    }

    pub fn write32(&mut self, addr: u32, value: u32) -> (r: bool)
        requires
            old(self).wf(),
            !overruns(addr),
        ensures
            final(self).wf(),
            final(self)@ == old(self)@.written(addr, value),
            r == Gpu3dState::takes(addr),
    {
        if GXFIFO <= addr && addr < GXFIFO + 0x40 {
            self.push_fifo(value);
            return true;
        }
        if PORT_BASE <= addr && addr < PORT_END {
            let opcode = ((addr - GXFIFO) / 4) as u8;
            self.push_port(opcode, value);
            return true;
        }
        let word = align4(addr);
        if word == reg::DISP3DCNT {
            self.disp3dcnt = value as u16;
        } else if word == reg::CLEAR_COLOR {
            self.clear_color = value;
        } else if word == reg::CLEAR_DEPTH {
            self.clear_depth = value & 0x7FFF;
        } else if word == reg::ALPHA_TEST_REF {
            self.alpha_test_ref = value as u8;
        } else if word == reg::FOG_COLOR {
            self.fog_color = value;
        } else if word == reg::GXSTAT {
            self.gxstat_irq = (value >> 30) as u8;
        } else if reg::EDGE_COLOR <= addr && addr < reg::EDGE_COLOR + 16 {
            let index = ((addr - reg::EDGE_COLOR) / 2) as usize;
            self.edge_color[index] = value as u16;
            self.edge_color[index + 1] = (value >> 16) as u16;
        } else if reg::TOON_TABLE <= addr && addr < reg::TOON_TABLE + 64 {
            let index = ((addr - reg::TOON_TABLE) / 2) as usize;
            self.toon[index] = value as u16;
            self.toon[index + 1] = (value >> 16) as u16;
        } else {
            return false;
        }
        true
    }

    pub fn read32(&self, addr: u32) -> (r: Option<u32>)
        requires
            self.wf(),
        ensures
            r == self@.word(addr),
    {
        let word = align4(addr);
        if word == reg::DISP3DCNT {
            Some(self.disp3dcnt as u32)
        } else if word == reg::CLEAR_COLOR {
            Some(self.clear_color)
        } else if word == reg::CLEAR_DEPTH {
            Some(self.clear_depth)
        } else if word == reg::GXSTAT {
            Some(self.gxstat())
        } else if word == reg::RAM_COUNT {
            Some(
                (self.geometry.polygon_count() as u32 & 0x1FFF) | ((
                self.geometry.vertex_count() as u32 & 0x1FFF) << 16),
            )
        } else if reg::POS_RESULT <= addr && addr < reg::POS_RESULT + 16 {
            Some(self.geometry.pos_result[((addr - reg::POS_RESULT) / 4) as usize] as u32)
        } else if reg::VEC_RESULT <= addr && addr < reg::VEC_RESULT + 12 {
            // A word read gets the 16-bit component and zero above it.
            Some(self.geometry.vec_result[((addr - reg::VEC_RESULT) / 4) as usize] as u32 & 0xFFFF)
        } else if reg::EDGE_COLOR <= addr && addr < reg::EDGE_COLOR + 16 {
            Some(0)
        } else if reg::TOON_TABLE <= addr && addr < reg::TOON_TABLE + 64 {
            Some(0)
        } else {
            None
        }
    }

    /// Whether the geometry FIFO's interrupt condition currently holds.
    ///
    /// Commands are executed as they arrive, so the FIFO is empty whenever software can look at
    /// it, and an empty FIFO satisfies both conditions that `GXSTAT` can select.
    pub fn fifo_irq_pending(&self) -> (r: bool)
        ensures
            r == (self@.gxstat_irq == 1 || self@.gxstat_irq == 2),
    {
        self.gxstat_irq == 1 || self.gxstat_irq == 2
    }

    /// `GXSTAT`, assembled from the pieces that own each field.
    fn gxstat(&self) -> (r: u32)
        requires
            self.wf(),
        ensures
            r == self@.gxstat(),
    {
        let pointer: u32 = (self.geometry.matrices.stack_pointer() as u32 & 0x1F) << 8;
        let error: u32 = if self.geometry.matrices.overflow || self.geometry.overflow {
            1u32 << 15
        } else {
            0
        };
        pointer | error | (1u32 << 25) | (1u32 << 26) | ((self.gxstat_irq as u32) << 30)
    }

    pub fn write16(&mut self, addr: u32, value: u16) -> (r: bool)
        requires
            old(self).wf(),
        ensures
            final(self).wf(),
            final(self)@ == old(self)@.written16(addr, value),
            r == (GXFIFO <= addr < PORT_END || Gpu3dState::takes(align4(addr))),
    {
        // The command ports and the FIFO are word-only.
        if GXFIFO <= addr && addr < PORT_END {
            return true;
        }
        let current = match self.read32(align4(addr)) {
            None => 0,
            Some(word) => word,
        };
        let spliced = if addr % 4 < 2 {
            (current & 0xFFFF_0000) | value as u32
        } else {
            (current & 0xFFFF) | ((value as u32) << 16)
        };
        proof {
            lemma_aligned(addr);
        }
        self.write32(align4(addr), spliced)
    }

    pub fn read16(&self, addr: u32) -> (r: Option<u16>)
        requires
            self.wf(),
        ensures
            r == self@.half(addr),
    {
        match self.read32(align4(addr)) {
            None => None,
            Some(word) => Some(
                if addr % 4 < 2 {
                    word as u16
                } else {
                    (word >> 16) as u16
                },
            ),
        }
    }

    pub fn write8(&mut self, addr: u32, value: u8) -> (r: bool)
        requires
            old(self).wf(),
        ensures
            final(self).wf(),
            GXFIFO <= addr < PORT_END ==> r && final(self)@ == old(self)@,
            !(GXFIFO <= addr < PORT_END) ==> {
                &&& final(self)@ == old(self)@.written16(
                    align2(addr),
                    old(self)@.spliced8(addr, value),
                )
                &&& r == (GXFIFO <= align2(addr) < PORT_END || Gpu3dState::takes(
                    align4(align2(addr)),
                ))
            },
    {
        if GXFIFO <= addr && addr < PORT_END {
            return true;
        }
        let current = match self.read16(align2(addr)) {
            None => 0,
            Some(half) => half,
        };
        let spliced = if addr % 2 == 0 {
            (current & 0xFF00) | value as u16
        } else {
            (current & 0x00FF) | ((value as u16) << 8)
        };
        self.write16(align2(addr), spliced)
    }

    pub fn read8(&self, addr: u32) -> (r: Option<u8>)
        requires
            self.wf(),
        ensures
            r == (match self@.word(align4(addr)) {
                None => None::<u8>,
                Some(word) => Some((word >> ((addr % 4 * 8) as u32)) as u8),
            }),
    {
        broadcast use crate::bits::lemma_and_bound_u32;

        match self.read32(align4(addr)) {
            None => None,
            Some(word) => Some((word >> (addr % 4 * 8)) as u8),
        }
    }

    /// A word written to `GXFIFO`: either four packed opcodes or one parameter.
    fn push_fifo(&mut self, value: u32)
        requires
            old(self).wf(),
        ensures
            final(self).wf(),
            final(self)@ == old(self)@.fed(value),
    {
        reveal(Gpu3dState::fed);
        if self.pending.len() == 0 {
            self.pending = vec![
                value as u8,
                (value >> 8) as u8,
                (value >> 16) as u8,
                (value >> 24) as u8,
            ];
            assert(self.pending@ =~= unpacked(value));
        } else {
            self.params.push(value);
        }
        self.run_ready();
    }

    /// Execute every queued command whose parameters have all arrived.
    fn run_ready(&mut self)
        requires
            old(self).geometry.wf(),
            old(self).framebuffer@.whole(),
            old(self).pending@.len() <= 0x400,
            old(self).params@.len() <= 0x401,
            old(self).port matches Some(p) ==> p.1@.len() <= 32,
        ensures
            final(self).wf(),
            final(self)@ == old(self)@.run(),
    {
        while self.pending.len() > 0
            invariant
                self.geometry.wf(),
                self.framebuffer@.whole(),
                self.pending@.len() <= 0x400,
                self.params@.len() <= 0x401,
                self.port matches Some(p) ==> p.1@.len() <= 32,
                self@.run() == old(self)@.run(),
            decreases self.pending@.len(),
        {
            let opcode = self.pending[0];
            let count: usize = match parameter_count(opcode) {
                None => 0,
                Some(n) => n as usize,
            };
            if self.params.len() < count {
                return;
            }
            let ghost before = self@;
            self.pending.remove(0);
            assert(self.pending@ =~= before.pending.skip(1));
            let params = take_front(&mut self.params, count);
            self.geometry.execute(opcode, &params);
        }
        // Every queued opcode ran, so any parameters left over belonged to nothing.
        self.params.clear();
        assert(self.params@ =~= Seq::empty());
    }

    /// A word written to a command's own port.
    fn push_port(&mut self, opcode: u8, value: u32)
        requires
            old(self).wf(),
        ensures
            final(self).wf(),
            final(self)@ == old(self)@.ported(opcode, value),
    {
        reveal(Gpu3dState::ported);
        let count: usize = match parameter_count(opcode) {
            None => 0,
            Some(n) => n as usize,
        };
        if count == 0 {
            let none: [u32; 0] = [];
            assert(none@ =~= Seq::empty());
            self.geometry.execute(opcode, &none);
            return;
        }
        let open = self.port.take();
        let mut params: Vec<u32> = match open {
            Some((other, params)) => {
                if other == opcode {
                    params
                } else {
                    Vec::new()
                }
            },
            None => Vec::new(),
        };
        params.push(value);
        if params.len() >= count {
            self.geometry.execute(opcode, &params);
        } else {
            self.port = Some((opcode, params));
        }
    }

    /// Swap and rasterise, if `SWAP_BUFFERS` asked for it.
    pub fn on_vblank(&mut self, vram: &Vram)
        requires
            old(self).wf(),
        ensures
            final(self).wf(),
            !old(self)@.geometry.swap_pending ==> final(self)@ == old(self)@,
            old(self)@.geometry.swap_pending ==> {
                &&& final(self)@ == (Gpu3dState {
                    geometry: old(self)@.geometry.taken(),
                    frame: final(self)@.frame,
                    ..old(self)@
                })
                &&& forall|i: int|
                    0 <= i < PIXELS ==> #[trigger] final(self)@.frame.pixel(i) == rendered(
                        old(self)@.geometry.building,
                        *vram,
                        clear_pixel(old(self)@.clear_color, old(self)@.clear_depth),
                        i % 256,
                        i / 256,
                        old(self)@.geometry.building.polygons.len(),
                    )
            },
    {
        if !self.geometry.swap_pending {
            return;
        }
        let list = self.geometry.take_display_list();
        render::render(&list, vram, self.clear_color, self.clear_depth, &mut self.framebuffer);
    }

    pub fn reset(&mut self)
        ensures
            final(self).wf(),
            final(self)@ == old(self)@.cleared(),
    {
        self.geometry.reset();
        self.framebuffer = Framebuffer3d::new();
        self.disp3dcnt = 0;
        self.clear_color = 0;
        self.clear_depth = 0x7FFF;
        self.pending = Vec::new();
        self.params = Vec::new();
        self.port = None;
        assert(self@ =~= old(self)@.cleared());
    }
}

/// A word address is where it says, and never at the tail of a table.
proof fn lemma_aligned(addr: u32)
    ensures
        !overruns(align4(addr)),
{
}

/// Split the first `count` parameters off a queue.
fn take_front(queue: &mut Vec<u32>, count: usize) -> (r: Vec<u32>)
    requires
        count <= old(queue)@.len(),
    ensures
        r@ == old(queue)@.take(count as int),
        final(queue)@ == old(queue)@.skip(count as int),
{
    let mut front: Vec<u32> = Vec::new();
    let mut rest: Vec<u32> = Vec::new();
    for i in 0..queue.len()
        invariant
            queue@ == old(queue)@,
            count <= queue@.len(),
            front@ =~= queue@.take(if i < count { i as int } else { count as int }),
            rest@ =~= queue@.subrange(count as int, if i < count { count as int } else { i as int }),
    {
        if i < count {
            front.push(queue[i]);
        } else {
            rest.push(queue[i]);
        }
    }
    assert(rest@ =~= queue@.skip(count as int));
    assert(front@ =~= queue@.take(count as int));
    *queue = rest;
    front
}

impl Gpu3dState {
    /// The registers and tables, after reading the stream at `at` as far as `limit` lets it be
    /// read.
    pub open spec fn registers_restored(self, d: Seq<u8>, limit: int, at: int) -> Gpu3dState {
        Gpu3dState {
            disp3dcnt: state::or16(d, limit, at, self.disp3dcnt),
            clear_color: state::or32(d, limit, at + 2, self.clear_color),
            clear_depth: state::or32(d, limit, at + 6, self.clear_depth),
            gxstat_irq: state::or8(d, limit, at + 10, self.gxstat_irq),
            fog_color: state::or32(d, limit, at + 11, self.fog_color),
            alpha_test_ref: state::or8(d, limit, at + 15, self.alpha_test_ref),
            toon: state::halves_or(d, limit, at + 16, self.toon),
            edge_color: state::halves_or(d, limit, at + 80, self.edge_color),
            ..self
        }
    }

    /// The core with reading stopped by an error.
    pub open spec fn stopped(self, e: StateError) -> GpuRun {
        GpuRun { state: self, at: 0, error: Some(e) }
    }

    /// The half-received commands and the picture, read from `at` on.
    pub open spec fn queue_read(self, d: Seq<u8>, at: int) -> GpuRun {
        let opcodes = state::counted_bytes(d, at, Counted::QueuedOpcodes, self.pending);
        let with_pending = Gpu3dState { pending: opcodes.list, ..self };
        match opcodes.error {
            Some(e) => with_pending.stopped(e),
            None => {
                let params = state::counted_words(
                    d,
                    opcodes.at,
                    Counted::QueuedParameters,
                    self.params,
                );
                let with_params = Gpu3dState { params: params.list, ..with_pending };
                match params.error {
                    Some(e) => with_params.stopped(e),
                    None => with_params.port_read(d, params.at),
                }
            },
        }
    }

    /// The command fed through a port, if there is one, and the picture.
    pub open spec fn port_read(self, d: Seq<u8>, at: int) -> GpuRun {
        if at + 1 > d.len() {
            self.stopped(StateError::UnexpectedEnd)
        } else if d[at] == 0 {
            Gpu3dState { port: None, ..self }.picture_read(d, at + 1)
        } else if at + 2 > d.len() {
            self.stopped(StateError::UnexpectedEnd)
        } else {
            let params = state::counted_words(d, at + 2, Counted::PortParameters, Seq::empty());
            match params.error {
                Some(e) => self.stopped(e),
                None => Gpu3dState {
                    port: Some((d[at + 1], params.list)),
                    ..self
                }.picture_read(d, params.at),
            }
        }
    }

    /// The picture, read from `at` on.
    pub open spec fn picture_read(self, d: Seq<u8>, at: int) -> GpuRun {
        let read = Gpu3dState { frame: self.frame.restored(d, d.len() as int, at), ..self };
        if at + render::frame_size() <= d.len() {
            GpuRun { state: read, at: at + render::frame_size(), error: None }
        } else {
            read.stopped(StateError::UnexpectedEnd)
        }
    }

    /// The core after reading the stream at `at`.
    pub open spec fn read(self, d: Seq<u8>, at: int) -> GpuRun {
        let limit = d.len() as int;
        let geometry = self.geometry.restored(d, limit, at);
        let with_geometry = Gpu3dState { geometry, ..self };
        if at + geometry::fixed_size() > limit {
            with_geometry.stopped(StateError::UnexpectedEnd)
        } else {
            let list = self.geometry.building.read(d, at + geometry::fixed_size());
            match list.error {
                Some(e) => with_geometry.stopped(e),
                None => {
                    let registers = with_geometry.registers_restored(d, limit, list.at);
                    if list.at + 96 > limit {
                        registers.stopped(StateError::UnexpectedEnd)
                    } else {
                        registers.queue_read(d, list.at + 96)
                    }
                },
            }
        }
    }

    /// The stream holds this core at `at`, but for a primitive that was being assembled.
    pub open spec fn encoded_at(self, d: Seq<u8>, at: int) -> bool {
        let after = at + self.geometry.size();
        &&& self.geometry.encoded_at(d, at)
        &&& after + 96 <= d.len()
        &&& self.registers_restored(d, d.len() as int, after) == self
        &&& self.queue_read(d, after + 96).state == self
        &&& self.queue_read(d, after + 96).error is None
    }
}

impl Gpu3d {
    pub fn save(&self, w: &mut StateWriter)
        requires
            self.wf(),
        ensures
            state::continues(old(w)@, final(w)@),
            self@.encoded_at(final(w)@, old(w)@.len() as int),
            self@.queue_read(
                final(w)@,
                old(w)@.len() + self@.geometry.size() + 96,
            ).at == final(w)@.len(),
    {
        let ghost at = w@.len() as int;
        self.geometry.save(w);
        let ghost w1 = w@;
        let ghost after = w@.len() as int;
        self.save_registers(w);
        let ghost w2 = w@;
        self.save_queue(w);
        proof {
            self.geometry@.lemma_kept(w1, w@, at);
            state::lemma_halves_kept(w2, w@, after + 16, self.toon@);
            state::lemma_halves_kept(w2, w@, after + 80, self.edge_color@);
            assert(self@.registers_restored(w@, w@.len() as int, after) =~= self@);
        }
    }

    /// The registers and the tables.
    fn save_registers(&self, w: &mut StateWriter)
        ensures
            state::continues(old(w)@, final(w)@),
            final(w)@.len() == old(w)@.len() + 96,
            self@.registers_restored(final(w)@, final(w)@.len() as int, old(w)@.len() as int)
                == self@,
    {
        let ghost at = w@.len() as int;
        w.write_u16(self.disp3dcnt);
        w.write_u32(self.clear_color);
        w.write_u32(self.clear_depth);
        w.write_u8(self.gxstat_irq);
        w.write_u32(self.fog_color);
        w.write_u8(self.alpha_test_ref);
        w.write_halves(&self.toon);
        let ghost tooned = w@;
        w.write_halves(&self.edge_color);
        proof {
            state::lemma_halves_kept(tooned, w@, at + 16, self.toon@);
            assert(self@.registers_restored(w@, w@.len() as int, at) =~= self@);
        }
    }

    /// The half-received commands and the picture.
    fn save_queue(&self, w: &mut StateWriter)
        requires
            self.wf(),
        ensures
            state::continues(old(w)@, final(w)@),
            self@.queue_read(final(w)@, old(w)@.len() as int).state == self@,
            self@.queue_read(final(w)@, old(w)@.len() as int).error is None,
            self@.queue_read(final(w)@, old(w)@.len() as int).at == final(w)@.len(),
    {
        let ghost at = w@.len() as int;
        w.write_counted_bytes(self.pending.as_slice());
        let ghost w4 = w@;
        w.write_counted_words(self.params.as_slice());
        let ghost w5 = w@;
        self.save_port(w);
        let ghost w6 = w@;
        self.framebuffer.save(w);
        proof {
            let d = w@;
            state::lemma_counted_bytes_kept(w4, d, at, Counted::QueuedOpcodes, self.pending@);
            state::lemma_counted_words_kept(
                w5,
                d,
                w4.len() as int,
                Counted::QueuedParameters,
                self.params@,
            );
            if self@.port is Some {
                state::lemma_counted_words_kept(
                    w6,
                    d,
                    w5.len() as int + 2,
                    Counted::PortParameters,
                    Seq::empty(),
                );
            }
            assert(self@.picture_read(d, w6.len() as int).state =~= self@);
        }
    }

    /// A command being fed through its own port.
    fn save_port(&self, w: &mut StateWriter)
        requires
            self.wf(),
        ensures
            state::continues(old(w)@, final(w)@),
            match self@.port {
                None => {
                    &&& final(w)@.len() == old(w)@.len() + 1
                    &&& final(w)@[old(w)@.len() as int] == 0
                },
                Some((opcode, params)) => {
                    &&& final(w)@.len() >= old(w)@.len() + 2
                    &&& final(w)@[old(w)@.len() as int] != 0
                    &&& final(w)@[old(w)@.len() as int + 1] == opcode
                    &&& state::counted_words(
                        final(w)@,
                        old(w)@.len() as int + 2,
                        Counted::PortParameters,
                        Seq::empty(),
                    ) == (state::Run { list: params, at: final(w)@.len() as int, error: None })
                },
            },
    {
        match &self.port {
            None => {
                w.write_bool(false);
            },
            Some(entry) => {
                w.write_bool(true);
                w.write_u8(entry.0);
                w.write_counted_words(entry.1.as_slice());
            },
        }
    }

    #[verifier::rlimit(30)]
    pub fn load(&mut self, r: &mut StateReader) -> (result: Result<(), StateError>)
        requires
            old(self).wf(),
            old(r).error() is None,
        ensures
            final(self).wf(),
            final(r).data() == old(r).data(),
            ({
                let run = old(self)@.read(old(r).data(), old(r).pos() as int);
                &&& final(self)@ == run.state
                &&& final(r).error() == run.error
                &&& run.error is None ==> final(r).pos() == run.at
            }),
            result == state::verdict(*final(r)),
    {
        let ghost d = r.data();
        let ghost at = r.pos() as int;
        let _ = self.geometry.load(r);
        if r.failed() {
            assert(self@ =~= old(self)@.read(d, at).state);
            return r.status();
        }
        let ghost with_geometry = self@;
        let ghost after = r.pos() as int;
        self.disp3dcnt = r.u16_or(self.disp3dcnt);
        self.clear_color = r.u32_or(self.clear_color);
        self.clear_depth = r.u32_or(self.clear_depth);
        self.gxstat_irq = r.u8_or(self.gxstat_irq);
        self.fog_color = r.u32_or(self.fog_color);
        self.alpha_test_ref = r.u8_or(self.alpha_test_ref);
        r.read_halves(&mut self.toon);
        r.read_halves(&mut self.edge_color);
        assert(self@ =~= with_geometry.registers_restored(d, d.len() as int, after));
        if r.failed() {
            return r.status();
        }
        self.load_queue(r);
        r.status()
    }

    /// The half-received commands and the picture.
    fn load_queue(&mut self, r: &mut StateReader)
        requires
            old(self).wf(),
            old(r).error() is None,
        ensures
            final(self).wf(),
            final(r).data() == old(r).data(),
            ({
                let run = old(self)@.queue_read(old(r).data(), old(r).pos() as int);
                &&& final(self)@ == run.state
                &&& final(r).error() == run.error
                &&& run.error is None ==> final(r).pos() == run.at
            }),
    {
        let ghost d = r.data();
        r.read_counted_bytes(Counted::QueuedOpcodes, &mut self.pending);
        if r.failed() {
            return;
        }
        r.read_counted_words(Counted::QueuedParameters, &mut self.params);
        if r.failed() {
            return;
        }
        let ghost before = self@;
        let ghost at = r.pos() as int;
        let held = r.bool_or(false);
        if r.failed() {
            return;
        }
        if held {
            let opcode = r.u8_or(0);
            if r.failed() {
                return;
            }
            let mut params: Vec<u32> = Vec::new();
            assert(params@ =~= Seq::empty());
            r.read_counted_words(Counted::PortParameters, &mut params);
            if r.failed() {
                return;
            }
            self.port = Some((opcode, params));
        } else {
            self.port = None;
        }
        let _ = self.framebuffer.load(r);
        assert(self@ =~= before.port_read(d, at).state);
    }
}

/// Loading a saved core gives back the core with no primitive half assembled, whatever was there
/// before.
pub proof fn law_save_then_load(saved: Gpu3d, before: Gpu3d, d: Seq<u8>, at: int)
    requires
        saved.wf(),
        before.wf(),
        saved@.encoded_at(d, at),
    ensures
        before@.read(d, at).error is None,
        before@.read(d, at).state == (Gpu3dState {
            geometry: saved@.geometry.without_strip(),
            ..saved@
        }),
{
    let a = saved@;
    let b = before@;
    let limit = d.len() as int;
    geometry::lemma_polygons_size(a.geometry.building.polygons);
    let after = at + a.geometry.size();
    geometry::law_save_then_load(a.geometry, b.geometry, d, at);
    geometry::law_list_save_then_load(
        a.geometry.building,
        b.geometry.building,
        d,
        at + geometry::fixed_size(),
    );
    state::lemma_halves_decided(d, after + 16, a.toon, b.toon);
    state::lemma_halves_decided(d, after + 80, a.edge_color, b.edge_color);
    let registers = Gpu3dState {
        geometry: a.geometry.without_strip(),
        ..b
    }.registers_restored(d, limit, after);
    lemma_queue_decided(a, registers, d, after + 96);
    let run = registers.queue_read(d, after + 96);
    assert(a.queue_read(d, after + 96).state == a);
    assert(run.state =~= (Gpu3dState { geometry: a.geometry.without_strip(), ..a }));
}

/// A stream that holds a whole queue and picture decides them alone.
proof fn lemma_queue_decided(a: Gpu3dState, b: Gpu3dState, d: Seq<u8>, at: int)
    requires
        a.frame.whole(),
        b.frame.whole(),
        a.queue_read(d, at).error is None,
    ensures
        b.queue_read(d, at).error is None,
        b.queue_read(d, at).state == (Gpu3dState {
            pending: a.queue_read(d, at).state.pending,
            params: a.queue_read(d, at).state.params,
            port: a.queue_read(d, at).state.port,
            frame: a.queue_read(d, at).state.frame,
            ..b
        }),
{
    let run = a.queue_read(d, at);
    render::law_decided(a.frame, b.frame, d, run.at - render::frame_size());
}

impl Gpu3dState {
    /// The core after a row of words written to one port.
    pub open spec fn ported_all(self, opcode: u8, values: Seq<u32>) -> Gpu3dState
        decreases values.len(),
    {
        if values.len() == 0 {
            self
        } else {
            self.ported_all(opcode, values.drop_last()).ported(opcode, values.last())
        }
    }

    /// The core after a row of words written to `GXFIFO`.
    pub open spec fn fed_all(self, values: Seq<u32>) -> Gpu3dState
        decreases values.len(),
    {
        if values.len() == 0 {
            self
        } else {
            self.fed_all(values.drop_last()).fed(values.last())
        }
    }
}

/// What is written to a command's own port to run it: its parameters, or any one word where it has
/// none.
pub open spec fn port_words(params: Seq<u32>, strobe: u32) -> Seq<u32> {
    if params.len() == 0 {
        seq![strobe]
    } else {
        params
    }
}

/// Both ways in end in the same command stream: a command fed through its own port, and the same
/// command packed into `GXFIFO` with nothing behind it, leave the same geometry. A command without
/// parameters runs on a port write of any value.
pub proof fn law_two_ways_in(
    s: Gpu3dState,
    opcode: u8,
    params: Seq<u32>,
    strobe: u32,
    packed: u32,
)
    requires
        s.pending.len() == 0,
        s.params.len() == 0,
        s.port is None,
        params.len() == arity(opcode),
        unpacked(packed) == seq![opcode, 0u8, 0u8, 0u8],
    ensures
        s.ported_all(opcode, port_words(params, strobe)).geometry == s.geometry.executed(
            opcode,
            params,
        ),
        s.fed(packed).fed_all(params).geometry == s.geometry.executed(opcode, params),
        s.ported_all(opcode, port_words(params, strobe)).port is None,
        s.fed(packed).fed_all(params).pending.len() == 0,
{
    if params.len() == 0 {
        lemma_no_parameters(s, opcode, strobe, packed);
        assert(params =~= Seq::empty());
    } else {
        lemma_port_completes(s, opcode, params);
        lemma_fifo_completes(s, opcode, params, packed);
    }
}

/// A command without parameters runs at once, whichever way it comes in.
proof fn lemma_no_parameters(s: Gpu3dState, opcode: u8, strobe: u32, packed: u32)
    requires
        s.pending.len() == 0,
        s.params.len() == 0,
        s.port is None,
        arity(opcode) == 0,
        unpacked(packed) == seq![opcode, 0u8, 0u8, 0u8],
    ensures
        s.ported_all(opcode, seq![strobe]) == s.ported(opcode, strobe),
        s.ported(opcode, strobe).geometry == s.geometry.executed(opcode, Seq::empty()),
        s.ported(opcode, strobe).port is None,
        s.fed(packed).geometry == s.geometry.executed(opcode, Seq::empty()),
        s.fed(packed).pending.len() == 0,
{
    reveal(Gpu3dState::ported);
    reveal(Gpu3dState::fed);
    assert(seq![strobe].drop_last() =~= Seq::empty());
    assert(s.ported_all(opcode, Seq::empty()) == s);
    assert(s.params =~= Seq::empty());
    assert(s.params.take(0) =~= Seq::empty());
    assert(s.params.skip(0) =~= Seq::empty());
    assert(unpacked(packed).skip(1) =~= Seq::new(3, |i: int| 0u8));
    lemma_nops(s.geometry.executed(opcode, Seq::empty()), 3);
}

/// The last parameter of a port command runs it.
proof fn lemma_port_completes(s: Gpu3dState, opcode: u8, params: Seq<u32>)
    requires
        s.port is None,
        params.len() == arity(opcode),
        params.len() > 0,
    ensures
        s.ported_all(opcode, params).geometry == s.geometry.executed(opcode, params),
        s.ported_all(opcode, params).port is None,
{
    lemma_port_waits(s, opcode, params.drop_last());
    assert(params.drop_last().push(params.last()) =~= params);
    let waiting = s.ported_all(opcode, params.drop_last());
    assert(s.ported_all(opcode, params) == waiting.ported(opcode, params.last()));
    assert(params.len() == 1 ==> Seq::<u32>::empty().push(params.last()) =~= params);
    reveal(Gpu3dState::ported);
}

/// The last parameter of a packed command runs it.
proof fn lemma_fifo_completes(s: Gpu3dState, opcode: u8, params: Seq<u32>, packed: u32)
    requires
        s.pending.len() == 0,
        s.params.len() == 0,
        params.len() == arity(opcode),
        params.len() > 0,
        unpacked(packed) == seq![opcode, 0u8, 0u8, 0u8],
    ensures
        s.fed(packed).fed_all(params).geometry == s.geometry.executed(opcode, params),
        s.fed(packed).fed_all(params).pending.len() == 0,
{
    let n = params.len();
    lemma_fifo_waits(s, opcode, params.drop_last(), packed);
    let waiting = s.fed(packed).fed_all(params.drop_last());
    assert(s.fed(packed).fed_all(params) == waiting.fed(params.last()));
    assert(waiting.params.push(params.last()) =~= params);
    assert(params.take(n as int) =~= params);
    assert(params.skip(n as int) =~= Seq::empty());
    assert(unpacked(packed).skip(1) =~= Seq::new(3, |i: int| 0u8));
    lemma_nops(s.geometry.executed(opcode, params), 3);
    assert(waiting.pending[0] == opcode);
    reveal(Gpu3dState::fed);
}

/// A port command stays open while parameters are missing.
proof fn lemma_port_waits(s: Gpu3dState, opcode: u8, values: Seq<u32>)
    requires
        s.port is None,
        values.len() < arity(opcode),
    ensures
        s.ported_all(opcode, values) == (Gpu3dState {
            port: if values.len() == 0 { None } else { Some((opcode, values)) },
            ..s
        }),
    decreases values.len(),
{
    if values.len() > 0 {
        lemma_port_waits(s, opcode, values.drop_last());
        reveal(Gpu3dState::ported);
        assert(Seq::<u32>::empty().push(values.last()) =~= values || values.len() > 1);
        assert(values.drop_last().push(values.last()) =~= values);
    }
}

/// A packed command waits in the FIFO while parameters are missing.
proof fn lemma_fifo_waits(s: Gpu3dState, opcode: u8, values: Seq<u32>, packed: u32)
    requires
        s.pending.len() == 0,
        s.params.len() == 0,
        values.len() < arity(opcode),
        unpacked(packed) == seq![opcode, 0u8, 0u8, 0u8],
    ensures
        s.fed(packed).fed_all(values) == (Gpu3dState {
            pending: unpacked(packed),
            params: values,
            ..s
        }),
    decreases values.len(),
{
    reveal(Gpu3dState::fed);
    if values.len() > 0 {
        lemma_fifo_waits(s, opcode, values.drop_last(), packed);
        assert(values.drop_last().push(values.last()) =~= values);
    } else {
        assert(s.params =~= values);
    }
}

/// A queue of nothing but `NOP` drains without a trace.
#[verifier::rlimit(30)]
proof fn lemma_nops(g: GeometryState, n: nat)
    ensures
        drained(g, Seq::new(n, |i: int| 0u8), Seq::empty()) == (
            g,
            Seq::<u8>::empty(),
            Seq::<u32>::empty(),
        ),
    decreases n,
{
    let pending = Seq::new(n, |i: int| 0u8);
    if n > 0 {
        lemma_nops(g, (n - 1) as nat);
        reveal(GeometryState::executed);
        assert(pending.skip(1) =~= Seq::new((n - 1) as nat, |i: int| 0u8));
        assert(Seq::<u32>::empty().skip(0) =~= Seq::empty());
    } else {
        assert(pending =~= Seq::empty());
    }
}

} // verus!
