//! The packet filter of a raw HCI socket.

use vstd::prelude::*;

verus! {

/// HCI packet type of an event.
pub const HCI_EVENT_PKT: u8 = 0x04;

/// The filter a raw HCI socket applies: which packet types and which event
/// codes it passes, and an opcode.
#[derive(Clone, Copy, Debug)]
pub struct HciFilter {
    pub type_mask: u32,
    pub event_mask: [u32; 2],
    pub opcode: u16,
}

impl Default for HciFilter {
    fn default() -> (f: Self)
        ensures
            f.type_mask == 0,
            f.event_mask@ == seq![0u32, 0u32],
            f.opcode == 0,
    {
        let f = HciFilter { type_mask: 0, event_mask: [0, 0], opcode: 0 };
        assert(f.event_mask@ =~= seq![0u32, 0u32]);
        f
    }
}

impl HciFilter {
    /// Let packets of type `ptype` through.
    pub fn set_ptype(&mut self, ptype: u8)
        requires
            ptype < 32,
        ensures
            final(self).type_mask == old(self).type_mask | (1u32 << ptype),
            final(self).event_mask == old(self).event_mask,
            final(self).opcode == old(self).opcode,
    {
        self.type_mask = self.type_mask | (1u32 << (ptype as u32));
    }

    /// Let events with code `event` through: bit `event % 32` of mask word
    /// `event / 32`.
    pub fn set_event(&mut self, event: u8)
        requires
            event < 64,
        ensures
            final(self).type_mask == old(self).type_mask,
            final(self).opcode == old(self).opcode,
            final(self).event_mask@ == old(self).event_mask@.update(
                (event / 32) as int,
                old(self).event_mask@[(event / 32) as int] | (1u32 << (event % 32)),
            ),
    {
        let idx: usize = (event / 32) as usize;
        let bit: u8 = event % 32;
        let word: u32 = self.event_mask[idx] | (1u32 << (bit as u32));
        self.event_mask[idx] = word;
        assert(self.event_mask@ =~= old(self).event_mask@.update(
            (event / 32) as int,
            old(self).event_mask@[(event / 32) as int] | (1u32 << (event % 32)),
        ));
    }
}

} // verus!
