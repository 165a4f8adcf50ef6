//! What the bits of the two cores' shared registers mean.

use vstd::arithmetic::power2::lemma2_to64;
use vstd::prelude::*;
use super::ipc::IpcState;
use crate::bits::{lemma_flag_u16, lemma_flag_u32};
use crate::nds::Core;

verus! {

/// `IPCFIFOCNT` tells a core of its two queues: whether the one it sends through is empty or full, and the
/// same eight bits up of the one it receives from, each with its interrupt's switch above; and at the top
/// the error and the switch of the whole.
pub proof fn law_the_control_word_tells_of_both_queues(s: IpcState, core: Core)
    requires
        s.wf(),
    ensures
        ({
            let w = s.control_word(core) as int;
            let me = s.side(core);
            &&& (w % 2 == 1) == (s.queue(core.other()).len() == 0)
            &&& (w / 2 % 2 == 1) == (s.queue(core.other()).len() == 16)
            &&& (w / 4 % 2 == 1) == me.send_empty_irq
            &&& (w / 0x100 % 2 == 1) == (s.queue(core).len() == 0)
            &&& (w / 0x200 % 2 == 1) == (s.queue(core).len() == 16)
            &&& (w / 0x400 % 2 == 1) == me.recv_not_empty_irq
            &&& (w / 0x4000 % 2 == 1) == me.error
            &&& (w / 0x8000 == 1) == me.fifo_enable
        }),
{
    let w = s.control_word(core) as int;
    let me = s.side(core);
    let one = |b: bool| if b { 1int } else { 0 };
    let low = one(s.queue(core.other()).len() == 0) + 2 * one(s.queue(core.other()).len() == 16) + 4 * one(
        me.send_empty_irq,
    );
    let high = one(s.queue(core).len() == 0) + 2 * one(s.queue(core).len() == 16) + 4 * one(
        me.recv_not_empty_irq,
    );
    let top = one(me.error) + 2 * one(me.fifo_enable);
    assert(w == low + 0x100 * high + 0x4000 * top);
    assert(0 <= low < 8 && 0 <= high < 8);
    lemma_parts(w, low, high, top);
}

proof fn lemma_parts(w: int, low: int, high: int, top: int)
    requires
        0 <= low < 8,
        0 <= high < 8,
        0 <= top < 4,
        w == low + 0x100 * high + 0x4000 * top,
    ensures
        w % 2 == low % 2,
        w / 2 % 2 == low / 2 % 2,
        w / 4 % 2 == low / 4,
        w / 0x100 % 2 == high % 2,
        w / 0x200 % 2 == high / 2 % 2,
        w / 0x400 % 2 == high / 4,
        w / 0x4000 % 2 == top % 2,
        w / 0x8000 == top / 2,
{
    assert(w / 0x100 == high + 64 * top);
    assert(w / 0x200 == high / 2 + 32 * top);
    assert(w / 0x400 == high / 4 + 16 * top);
    assert(w / 0x4000 == top);
    assert(w / 2 == low / 2 + 0x80 * high + 0x2000 * top);
    assert(w / 4 == low / 4 + 0x40 * high + 0x1000 * top);
}

/// Writing `IPCFIFOCNT`: bits 2, 10 and 15 are kept, bit 3 empties the queue that the core sends through,
/// bit 14 acknowledges the error, and nothing else is touched.
pub proof fn law_writing_the_control_word(s: IpcState, core: Core, value: u16)
    requires
        s.wf(),
    ensures
        ({
            let after = s.control_written(core, value);
            let me = after.side(core);
            &&& me.send_empty_irq == (value / 4 % 2 == 1)
            &&& me.recv_not_empty_irq == (value / 0x400 % 2 == 1)
            &&& me.fifo_enable == (value >= 0x8000)
            &&& me.error == (s.side(core).error && value / 0x4000 % 2 == 0)
            &&& after.queue(core) == s.queue(core)
            &&& value / 8 % 2 == 1 ==> after.queue(core.other()).len() == 0
            &&& value / 8 % 2 == 0 ==> after.queue(core.other()) == s.queue(core.other())
            &&& after.side(core.other()) == s.side(core.other())
            &&& me.sync_out == s.side(core).sync_out
        }),
{
    lemma2_to64();
    lemma_flag_u16(value, 4, 2);
    lemma_flag_u16(value, 8, 3);
    lemma_flag_u16(value, 0x400, 10);
    lemma_flag_u16(value, 0x4000, 14);
    lemma_flag_u16(value, 0x8000, 15);
}

/// Writing `IPCSYNC` keeps four bits for the other core to read and the switch in bit 14; bit 13 interrupts
/// the other core if its own switch is on.
pub proof fn law_the_strobe_interrupts_the_other_core(s: IpcState, core: Core, value: u32)
    requires
        s.wf(),
    ensures
        ({
            let after = s.sync_written(core, value);
            let strobed = value / 0x2000 % 2 == 1 && s.side(core.other()).sync_irq_enable;
            &&& after.side(core).sync_out == value / 0x100 % 16
            &&& after.side(core).sync_irq_enable == (value / 0x4000 % 2 == 1)
            &&& after.side(core).pending == s.side(core).pending
            &&& after.side(core.other()).pending.sync == (s.side(core.other()).pending.sync || strobed)
            &&& after.side(core.other()).sync_out == s.side(core.other()).sync_out
            &&& after.queues == s.queues
        }),
{
    lemma2_to64();
    lemma_flag_u32(value, 0x2000, 13);
    lemma_flag_u32(value, 0x4000, 14);
}

} // verus!
