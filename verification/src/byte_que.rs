use vstd::prelude::*;

verus! {

/// A cyclic byte counter over `q_width` positions.
pub struct Que {
    pub q_id: u8,
    q_width: u8,
}

impl Que {
    /// Current position.
    pub closed spec fn spec_id(&self) -> u8 {
        self.q_id
    }

    /// Number of positions.
    pub closed spec fn spec_width(&self) -> u8 {
        self.q_width
    }

    /// A counter at 0 over `width` positions.
    pub fn new(width: u8) -> (q: Que)
        ensures
            q.spec_id() == 0,
            q.spec_width() == width,
    {
        Que { q_id: 0, q_width: width }
    }

    /// Moves to the next position, wrapping to 0 after the last one.
    pub fn next_in_que(&mut self)
        requires
            old(self).spec_width() > 0,
            old(self).spec_id() < 255,
        ensures
            final(self).spec_id() == (old(self).spec_id() + 1) % (old(self).spec_width() as int),
            final(self).spec_width() == old(self).spec_width(),
    {
        self.q_id = self.q_id + 1;
        self.q_id = self.q_id % self.q_width;
    }

    /// Number of positions.
    pub fn width(&self) -> (r: u8)
        ensures
            r == self.spec_width(),
    {
        self.q_width
    }
}

} // verus!
