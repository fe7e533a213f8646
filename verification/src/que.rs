use vstd::prelude::*;

verus! {

/// Direction in which a queue moves.
///
/// `Down` lowers the position at each step until it reaches the bottom of
/// the window (0); `Up` is the opposite: it raises the position until it
/// reaches the top of the window (its width), and stays there.
#[derive(Copy, Clone, Debug, PartialEq, Eq, Structural)]
pub enum QueMode {
    Down,
    Up,
}

/// A position moving over a window of `width` positions.
#[derive(Copy, Clone, Debug)]
pub struct Que {
    id: usize,
    width: usize,
    mode: QueMode,
}

/// The position after one step from `id` in a window of `width`, in `mode`.
pub open spec fn step(id: nat, width: nat, mode: QueMode) -> nat {
    match mode {
        QueMode::Down => if id > 0 { (id - 1) as nat } else { 0 },
        QueMode::Up => if id < width { id + 1 } else { id },
    }
}

/// The position after `steps` steps.
pub open spec fn position_after(id: nat, width: nat, mode: QueMode, steps: nat) -> nat
    decreases steps,
{
    if steps == 0 {
        id
    } else {
        step(position_after(id, width, mode, (steps - 1) as nat), width, mode)
    }
}

impl Que {
    #[verifier::type_invariant]
    closed spec fn inv(self) -> bool {
        self.id <= self.width
    }

    /// Current position.
    pub closed spec fn spec_id(self) -> usize {
        self.id
    }

    /// Size of the window.
    pub closed spec fn spec_width(self) -> usize {
        self.width
    }

    /// Direction.
    pub closed spec fn spec_mode(self) -> QueMode {
        self.mode
    }

    /// A queue at position 0 of a window of `width`, moving in `mode`.
    pub fn new(width: usize, mode: QueMode) -> (q: Self)
        ensures
            q.spec_id() == 0,
            q.spec_width() == width,
            q.spec_mode() == mode,
    {
        Que { id: 0, width, mode }
    }

    /// Moves one step in the queue's direction.
    pub fn next(&mut self)
        ensures
            final(self).spec_id() == step(old(self).spec_id() as nat, old(self).spec_width() as nat, old(self).spec_mode()),
            final(self).spec_width() == old(self).spec_width(),
            final(self).spec_mode() == old(self).spec_mode(),
    {
        proof {
            use_type_invariant(&*self);
        }
        match self.mode {
            QueMode::Down => {
                if self.id > 0 {
                    self.id = self.id - 1;
                }
            },
            QueMode::Up => {
                if self.id < self.width {
                    self.id = self.id + 1;
                }
            },
        }
    }

    /// Current position.
    pub fn get_id(&self) -> (r: usize)
        ensures
            r == self.spec_id(),
    {
        self.id
    }

    /// Size of the window.
    pub fn width(&self) -> (r: usize)
        ensures
            r == self.spec_width(),
    {
        self.width
    }

    /// Direction.
    pub fn mode(&self) -> (r: QueMode)
        ensures
            r == self.spec_mode(),
    {
        self.mode
    }

    /// Moving up, a queue climbs one position per step until the top of
    /// the window, and stays there.
    pub proof fn lemma_up_climbs(id: nat, width: nat, steps: nat)
        requires
            id <= width,
        ensures
            position_after(id, width, QueMode::Up, steps) == if id + steps < width { id + steps } else { width },
        decreases steps,
    {
        if steps > 0 {
            Self::lemma_up_climbs(id, width, (steps - 1) as nat);
        }
    }

    /// Moving down, a queue descends one position per step until the bottom
    /// of the window, and stays there.
    pub proof fn lemma_down_descends(id: nat, width: nat, steps: nat)
        ensures
            position_after(id, width, QueMode::Down, steps) == if id > steps { id - steps } else { 0 },
        decreases steps,
    {
        if steps > 0 {
            Self::lemma_down_descends(id, width, (steps - 1) as nat);
        }
    }
}

} // verus!
