//! The hotbar: five block slots, one of them selected.

use vstd::prelude::*;

use crate::world::Block;

verus! {

/// Number of hotbar slots.
pub const HOTBAR_SLOTS: usize = 5;

/// Five block slots with one selected; the selection always names a slot.
pub struct Hotbar {
    slots: [Block; 5],
    selected: usize,
}

/// The slots a new hotbar holds.
pub open spec fn initial_slots() -> Seq<Block> {
    seq![Block::Grass, Block::Dirt, Block::Stone, Block::Air, Block::Air]
}

impl Hotbar {
    #[verifier::type_invariant]
    spec fn selection_in_range(self) -> bool {
        self.selected < 5
    }

    /// The blocks in the slots, in order.
    pub closed spec fn slots_view(&self) -> Seq<Block> {
        self.slots@
    }

    /// The index of the selected slot.
    pub closed spec fn selected_view(&self) -> int {
        self.selected as int
    }

    /// Grass, dirt, stone and two empty slots; the first slot selected.
    pub fn new() -> (h: Hotbar)
        ensures
            h.slots_view() == initial_slots(),
            h.selected_view() == 0,
    {
        let h = Hotbar {
            slots: [Block::Grass, Block::Dirt, Block::Stone, Block::Air, Block::Air],
            selected: 0,
        };
        proof {
            assert(h.slots_view() =~= initial_slots());
        }
        h
    }

    /// Selects slot `index`; an index past the last slot changes nothing.
    pub fn set_selected(&mut self, index: usize)
        ensures
            final(self).slots_view() == old(self).slots_view(),
            index < 5 ==> final(self).selected_view() == index,
            index >= 5 ==> final(self).selected_view() == old(self).selected_view(),
    {
        if index < self.slots.len() {
            self.selected = index;
        }
    }

    /// The block in the selected slot.
    pub fn current_block(&self) -> (b: Block)
        ensures
            0 <= self.selected_view() < 5,
            b == self.slots_view()[self.selected_view()],
    {
        proof {
            use_type_invariant(self);
        }
        self.slots[self.selected]
    }

    /// The index of the selected slot, always below the number of slots.
    pub fn selected_index(&self) -> (i: usize)
        ensures
            i == self.selected_view(),
            i < 5,
    {
        proof {
            use_type_invariant(self);
        }
        self.selected
    }
}

} // verus!
