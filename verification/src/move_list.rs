use vstd::prelude::*;
use crate::bit_move::BitMove;

verus! {

/// A list of moves in the order they were added, with room for 256.
#[derive(Clone, Copy, Debug)]
pub struct MoveList {
    pub moves: [BitMove; 256],
    pub len: usize,
}

impl View for MoveList {
    type V = Seq<BitMove>;

    /// The moves that were added, first to last.
    open spec fn view(&self) -> Seq<BitMove> {
        self.moves@.subrange(0, self.len as int)
    }
}

impl MoveList {
    pub const CAPACITY: usize = 256;

    /// The length is within the capacity.
    pub open spec fn wf(self) -> bool {
        self.len <= MoveList::CAPACITY
    }

    /// An empty list.
    pub fn new() -> (r: MoveList)
        ensures
            r.wf(),
            r@ == Seq::<BitMove>::empty(),
    {
        let r = MoveList { moves: [BitMove(0);256], len: 0 };
        assert(r@ =~= Seq::<BitMove>::empty());
        r
    }

    /// Appends a move.
    pub fn add(&mut self, bit_move: BitMove)
        requires
            old(self).wf(),
            old(self).len < MoveList::CAPACITY,
        ensures
            final(self).wf(),
            final(self)@ == old(self)@.push(bit_move),
            final(self).len == old(self).len + 1,
    {
        self.moves[self.len] = bit_move;
        self.len = self.len + 1;
        assert(self@ =~= old(self)@.push(bit_move));
    }

    /// The number of moves in the list.
    pub fn len(&self) -> (r: usize)
        requires
            self.wf(),
        ensures
            r == self@.len(),
    {
        self.len
    }

    /// Whether the list has no move.
    pub fn is_empty(&self) -> (r: bool)
        requires
            self.wf(),
        ensures
            r == (self@.len() == 0),
    {
        self.len == 0
    }

    /// The move at position `index`.
    pub fn get(&self, index: usize) -> (r: BitMove)
        requires
            self.wf(),
            index < self@.len(),
        ensures
            r == self@[index as int],
    {
        self.moves[index]
    }
}

impl Default for MoveList {
    fn default() -> (r: MoveList)
        ensures
            r.wf(),
            r@ == Seq::<BitMove>::empty(),
    {
        MoveList::new()
    }
}

} // verus!
