//! The queue of upcoming pieces.
use crate::global::QUEUE_SIZE;
use crate::position::MatrixPosition;
use crate::tetromino::{Tetromino, TetrominoType};
use std::collections::VecDeque;
use vstd::prelude::*;

verus! {

/// Upcoming pieces, front first, all placed at the entry anchor.
pub struct HoldOnQueueResoure {
    pub start_pos: MatrixPosition,
    pub values: VecDeque<Tetromino>,
}

impl HoldOnQueueResoure {
    /// Every piece in the queue is well formed and fresh at the entry
    /// anchor, and the queue is never empty.
    pub open spec fn wf(&self) -> bool {
        &&& self.values@.len() > 0
        &&& forall|i: int|
            0 <= i < self.values@.len() ==> {
                &&& (#[trigger] self.values@[i]).wf()
                &&& self.values@[i].is_fresh(self.start_pos, self.values@[i].ty)
            }
    }

    /// A queue of `QUEUE_SIZE` pieces of randomly drawn types.
    pub fn new(start_pos: MatrixPosition) -> (r: HoldOnQueueResoure)
        ensures
            r.wf(),
            r.start_pos == start_pos,
            r.values@.len() == QUEUE_SIZE,
    {
        let mut values: VecDeque<Tetromino> = VecDeque::new();
        let mut i: usize = 0;
        while i < QUEUE_SIZE
            invariant
                i <= QUEUE_SIZE,
                values@.len() == i,
                forall|k: int|
                    0 <= k < values@.len() ==> {
                        &&& (#[trigger] values@[k]).wf()
                        &&& values@[k].is_fresh(start_pos, values@[k].ty)
                    },
            decreases QUEUE_SIZE - i,
        {
            let new = Tetromino::new(start_pos);
            values.push_front(new);
            i += 1;
        }
        HoldOnQueueResoure { start_pos, values }
    }

    /// Removes the front piece and returns it, and appends a fresh piece of
    /// type `ty` at the back.
    pub fn pop_push_with(&mut self, ty: TetrominoType) -> (r: Tetromino)
        requires
            old(self).wf(),
        ensures
            final(self).wf(),
            final(self).start_pos == old(self).start_pos,
            r == old(self).values@[0],
            final(self).values@.len() == old(self).values@.len(),
            final(self).values@.drop_last() == old(self).values@.drop_first(),
            final(self).values@.last().is_fresh(old(self).start_pos, ty),
    {
        let new = Tetromino::with_type(self.start_pos, ty);
        let value = self.values.pop_front();
        self.values.push_back(new);
        assert(self.values@.drop_last() =~= old(self).values@.drop_first());
        value.unwrap()
    }

    /// Removes the front piece and returns it, and appends a fresh piece of
    /// a randomly drawn type at the back.
    pub fn pop_push(&mut self) -> (r: Tetromino)
        requires
            old(self).wf(),
        ensures
            final(self).wf(),
            final(self).start_pos == old(self).start_pos,
            r == old(self).values@[0],
            final(self).values@.len() == old(self).values@.len(),
            final(self).values@.drop_last() == old(self).values@.drop_first(),
            final(self).values@.last().is_fresh(old(self).start_pos, final(self).values@.last().ty),
    {
        self.pop_push_with(TetrominoType::random())
    }

    /// The front piece, if any.
    pub fn first(&self) -> (r: Option<&Tetromino>)
        ensures
            r.is_some() == (self.values@.len() > 0),
            r matches Some(t) ==> *t == self.values@[0],
    {
        if self.values.len() > 0 {
            Some(&self.values[0])
        } else {
            None
        }
    }
}

} // verus!
