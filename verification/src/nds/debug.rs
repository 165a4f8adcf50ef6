//! What a debugger is shown of the ARM9.
//!
//! The debugger has one of everything: one register list, one program counter, one address space.
//! It is shown the core that runs game logic.

use vstd::prelude::*;

verus! {

/// One named span of the address space, both ends in it.
#[derive(Debug, Clone, Copy, PartialEq, Eq)]
pub struct DebugRegion {
    pub name: &'static str,
    pub first: u32,
    pub last: u32,
}

/// Where one instruction is read from.
#[derive(Debug, Clone, Copy, PartialEq, Eq, Structural)]
pub struct Fetch {
    pub addr: u32,
    /// How many bytes it has.
    pub width: u32,
}

/// How many digits an address is shown with.
pub const ADDRESS_DIGITS: u8 = 8;

/// The ARM9's address space, as a memory viewer's jump list shows it.
///
/// Spans are the physical sizes, not the mirrored windows: listing main RAM's 16 MiB window would
/// suggest that 16 MiB of distinct memory exists. The two tightly-coupled memories are listed where
/// the firmware leaves them.
#[verifier::allow_in_spec]
pub fn regions() -> [DebugRegion; 13]
    returns
        ([
            DebugRegion { name: "ITCM", first: 0x0000_0000, last: 0x0000_7FFF },
            DebugRegion { name: "Main RAM", first: 0x0200_0000, last: 0x023F_FFFF },
            DebugRegion { name: "DTCM", first: 0x027C_0000, last: 0x027C_3FFF },
            DebugRegion { name: "Shared WRAM", first: 0x0300_0000, last: 0x0300_7FFF },
            DebugRegion { name: "I/O registers", first: 0x0400_0000, last: 0x0400_10FF },
            DebugRegion { name: "Palette RAM", first: 0x0500_0000, last: 0x0500_07FF },
            DebugRegion { name: "VRAM, engine A background", first: 0x0600_0000, last: 0x0607_FFFF },
            DebugRegion { name: "VRAM, engine B background", first: 0x0620_0000, last: 0x0621_FFFF },
            DebugRegion { name: "VRAM, engine A sprites", first: 0x0640_0000, last: 0x0643_FFFF },
            DebugRegion { name: "VRAM, engine B sprites", first: 0x0660_0000, last: 0x0661_FFFF },
            DebugRegion { name: "VRAM, direct window", first: 0x0680_0000, last: 0x068A_3FFF },
            DebugRegion { name: "OAM", first: 0x0700_0000, last: 0x0700_07FF },
            DebugRegion { name: "ARM9 BIOS", first: 0xFFFF_0000, last: 0xFFFF_7FFF },
        ]),
{
    [
        DebugRegion { name: "ITCM", first: 0x0000_0000, last: 0x0000_7FFF },
        DebugRegion { name: "Main RAM", first: 0x0200_0000, last: 0x023F_FFFF },
        DebugRegion { name: "DTCM", first: 0x027C_0000, last: 0x027C_3FFF },
        DebugRegion { name: "Shared WRAM", first: 0x0300_0000, last: 0x0300_7FFF },
        DebugRegion { name: "I/O registers", first: 0x0400_0000, last: 0x0400_10FF },
        DebugRegion { name: "Palette RAM", first: 0x0500_0000, last: 0x0500_07FF },
        DebugRegion { name: "VRAM, engine A background", first: 0x0600_0000, last: 0x0607_FFFF },
        DebugRegion { name: "VRAM, engine B background", first: 0x0620_0000, last: 0x0621_FFFF },
        DebugRegion { name: "VRAM, engine A sprites", first: 0x0640_0000, last: 0x0643_FFFF },
        DebugRegion { name: "VRAM, engine B sprites", first: 0x0660_0000, last: 0x0661_FFFF },
        DebugRegion { name: "VRAM, direct window", first: 0x0680_0000, last: 0x068A_3FFF },
        DebugRegion { name: "OAM", first: 0x0700_0000, last: 0x0700_07FF },
        DebugRegion { name: "ARM9 BIOS", first: 0xFFFF_0000, last: 0xFFFF_7FFF },
    ]
}

/// Where the instruction at an address is read from: the whole one that the address falls in, two
/// bytes wide in Thumb state and four in ARM state.
pub fn fetch_for(addr: u32, thumb: bool) -> (r: Fetch)
    ensures
        r.width == (if thumb { 2int } else { 4 }),
        r.addr == addr - addr % r.width,
{
    let width: u32 = if thumb { 2 } else { 4 };
    Fetch { addr: addr - addr % width, width }
}

/// How many bytes of an instruction can be read before the first refusal.
pub open spec fn readable(peeked: Seq<Option<u8>>) -> nat
    decreases peeked.len(),
{
    if peeked.len() == 0 || peeked[0] is None {
        0
    } else {
        1 + readable(peeked.drop_first())
    }
}

/// The bytes of an instruction as far as they can be read.
///
/// A refusal partway means the instruction straddles unreadable space. The bytes are then short, so
/// that a disassembler can say so, where zeroes in their place would decode to something.
pub fn instruction_bytes(peeked: &[Option<u8>]) -> (r: Vec<u8>)
    ensures
        r@ == Seq::new(readable(peeked@), |i: int| peeked@[i]->0),
{
    let mut bytes: Vec<u8> = Vec::new();
    let mut i: usize = 0;
    proof {
        law_readable_bytes_come_first(peeked@);
        assert(peeked@.skip(0) =~= peeked@);
    }
    while i < peeked.len()
        invariant
            i <= readable(peeked@) <= peeked@.len(),
            readable(peeked@) == i + readable(peeked@.skip(i as int)),
            bytes@ == Seq::new(i as nat, |j: int| peeked@[j]->0),
        ensures
            i == readable(peeked@),
            bytes@ == Seq::new(i as nat, |j: int| peeked@[j]->0),
        decreases peeked@.len() - i,
    {
        assert(peeked@.skip(i as int).drop_first() =~= peeked@.skip(i + 1));
        match peeked[i] {
            None => {
                break;
            },
            Some(b) => bytes.push(b),
        }
        i = i + 1;
        assert(bytes@ =~= Seq::new(i as nat, |j: int| peeked@[j]->0));
    }
    bytes
}

/// Every byte before the first refusal is there, and the one after them is not.
pub proof fn law_readable_bytes_come_first(peeked: Seq<Option<u8>>)
    ensures
        readable(peeked) <= peeked.len(),
        forall|i: int| 0 <= i < readable(peeked) ==> #[trigger] peeked[i] is Some,
        readable(peeked) < peeked.len() ==> peeked[readable(peeked) as int] is None,
    decreases peeked.len(),
{
    if peeked.len() > 0 && peeked[0] is Some {
        let rest = peeked.drop_first();
        law_readable_bytes_come_first(rest);
        assert forall|i: int| 0 <= i < readable(peeked) implies #[trigger] peeked[i] is Some by {
            if i > 0 {
                assert(peeked[i] == rest[i - 1]);
            }
        }
    }
}

/// The jump list goes up through the address space, and no two spans share an address.
pub proof fn law_regions_are_in_order(i: int, j: int)
    requires
        0 <= i < j < 13,
    ensures
        regions()@[i].first <= regions()@[i].last < regions()@[j].first,
        regions()@[j].first <= regions()@[j].last,
{
}

/// Every address of an instruction is read from the same place.
pub proof fn law_an_instruction_has_one_place(addr: u32, within: u32, width: u32)
    requires
        width == 2 || width == 4,
        addr % width == 0,
        within < width,
    ensures
        (addr + within) - (addr + within) % (width as int) == addr,
{
}

} // verus!
