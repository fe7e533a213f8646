use vstd::prelude::*;

verus! {

/// A cyclic counter over `q_width` positions.
#[derive(Copy, Clone, Debug)]
pub struct Que {
    pub q_id: usize,
    pub q_width: usize,
}

impl Que {
    /// A counter at 0 over `width` positions.
    pub open spec fn new_spec(width: usize) -> Que {
        Que { q_id: 0, q_width: width }
    }

    /// The counter one step further.
    pub open spec fn stepped(self) -> Que {
        Que { q_id: ((self.q_id + 1) % (self.q_width as int)) as usize, q_width: self.q_width }
    }

    /// A counter at 0 over `width` positions.
    pub fn new(width: usize) -> (q: Self)
        ensures
            q == Que::new_spec(width),
    {
        Que { q_id: 0, q_width: width }
    }

    /// Moves to the next position, wrapping to 0 after the last one.
    pub fn next(&mut self)
        requires
            old(self).q_width > 0,
            old(self).q_id < usize::MAX,
        ensures
            *final(self) == old(self).stepped(),
            final(self).q_id == (old(self).q_id + 1) % (old(self).q_width as int),
            final(self).q_width == old(self).q_width,
    {
        self.q_id = self.q_id + 1;
        self.q_id = self.q_id % self.q_width;
    }
}

} // verus!
