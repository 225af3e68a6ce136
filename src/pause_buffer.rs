//! Background output withheld while the prompt is paused.

use std::collections::VecDeque;
use vstd::prelude::*;

verus! {

/// A payload of bytes written by a background task.
pub type Text = Vec<u8>;

/// First-in first-out queue of payloads held back while paused.
pub struct PauseBuffer {
    pub items: VecDeque<Text>,
}

impl View for PauseBuffer {
    type V = Seq<Seq<u8>>;

    open spec fn view(&self) -> Seq<Seq<u8>> {
        self.items@.map_values(|t: Text| t@)
    }
}

impl PauseBuffer {
    pub fn new() -> (r: PauseBuffer)
        ensures
            r@ == Seq::<Seq<u8>>::empty(),
    {
        PauseBuffer { items: VecDeque::new() }
    }

    /// Queues a payload behind those already held.
    pub fn push_back(&mut self, text: Text)
        ensures
            final(self)@ == old(self)@.push(text@),
    {
        self.items.push_back(text);
        proof {
            assert(final(self)@ =~= old(self)@.push(text@));
        }
    }

    /// Takes out the oldest payload, if any.
    pub fn pop_front(&mut self) -> (r: Option<Text>)
        ensures
            old(self)@.len() == 0 ==> r is None && final(self)@ == old(self)@,
            old(self)@.len() > 0 ==> r is Some && r->0@ == old(self)@[0] && final(self)@
                == old(self)@.drop_first(),
    {
        let r = self.items.pop_front();
        proof {
            if old(self)@.len() > 0 {
                assert(final(self)@ =~= old(self)@.drop_first());
            }
        }
        r
    }

    pub fn len(&self) -> (r: usize)
        ensures
            r == self@.len(),
    {
        self.items.len()
    }

    /// The payload at position `i`, counting from the oldest.
    pub fn get(&self, i: usize) -> (r: &Text)
        requires
            i < self@.len(),
        ensures
            r@ == self@[i as int],
    {
        &self.items[i]
    }

    pub fn clear(&mut self)
        ensures
            final(self)@ == Seq::<Seq<u8>>::empty(),
    {
        self.items.clear();
        proof {
            assert(final(self)@ =~= Seq::<Seq<u8>>::empty());
        }
    }
}

} // verus!
