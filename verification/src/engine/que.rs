use vstd::prelude::*;

verus! {

/// Direction a queue moves in.
///
/// `Down` lowers the index at each step until it reaches the bottom of the
/// window (0) and stays there. `Up` is the opposite direction: it raises the
/// index, and at the top of the window it wraps round to the bottom, so
/// that it keeps walking through the window.
#[derive(Copy, Clone, Debug, PartialEq, Eq, Structural)]
pub enum QueMode {
    Down,
    Up,
}

/// The state of a queue: `id` is the offset of the active layer inside the
/// window, `width` the size of the window and `depth` the number of layers
/// of the note.
pub struct QueView {
    pub id: usize,
    pub width: usize,
    pub depth: usize,
    pub mode: QueMode,
}

/// A step or a resize of a queue.
pub enum QueOp {
    Next,
    SetWidth(usize),
}

impl QueView {
    /// The offset is inside the window (or 0 when the window is empty).
    pub open spec fn wf(self) -> bool {
        self.id < self.width || self.id == 0
    }

    /// One step in the queue's direction.
    pub open spec fn stepped(self) -> QueView {
        QueView {
            id: match self.mode {
                QueMode::Up => ((self.id + 1) % (self.width as int)) as usize,
                QueMode::Down => if self.id > 0 { (self.id - 1) as usize } else { 0 },
            },
            ..self
        }
    }

    /// The window resized to `width`, at most the number of layers; an
    /// offset the new window does not hold is folded back into it.
    pub open spec fn resized(self, width: usize) -> QueView {
        let w = if width < self.depth { width } else { self.depth };
        QueView { id: if w > 0 { (self.id % w) as usize } else { 0 }, width: w, ..self }
    }

    /// The queue after one operation.
    pub open spec fn apply(self, op: QueOp) -> QueView {
        match op {
            QueOp::Next => self.stepped(),
            QueOp::SetWidth(w) => self.resized(w),
        }
    }

    /// The queue after a sequence of operations, in order.
    pub open spec fn after(self, ops: Seq<QueOp>) -> QueView
        decreases ops.len(),
    {
        if ops.len() == 0 {
            self
        } else {
            self.after(ops.drop_last()).apply(ops.last())
        }
    }

    /// `next` can be called: an upward queue needs a window to wrap in.
    pub open spec fn can_step(self) -> bool {
        self.mode == QueMode::Up ==> self.width > 0
    }

    /// Every operation of the sequence can be made when its turn comes.
    pub open spec fn can_run(self, ops: Seq<QueOp>) -> bool
        decreases ops.len(),
    {
        if ops.len() == 0 {
            true
        } else {
            self.can_run(ops.drop_last()) && (ops.last() is Next ==> self.after(ops.drop_last()).can_step())
        }
    }
}

/// A window over the layers of one note, moving in the direction of its mode.
#[derive(Copy, Clone, Debug)]
pub struct Que {
    id: usize,
    width: usize,
    depth: usize,
    mode: QueMode,
}

impl View for Que {
    type V = QueView;

    closed spec fn view(&self) -> QueView {
        QueView { id: self.id, width: self.width, depth: self.depth, mode: self.mode }
    }
}

impl Que {
    #[verifier::type_invariant]
    closed spec fn inv(self) -> bool {
        self@.wf()
    }

    /// A queue at the start of a window of `width` positions over `depth` layers.
    pub fn new(width: usize, depth: usize, mode: QueMode) -> (q: Self)
        ensures
            q@ == (QueView { id: 0, width, depth, mode }),
    {
        Que { id: 0, width, depth, mode }
    }

    /// Moves one step: `Up` to the next offset, wrapping to 0 after the last
    /// one; `Down` to the previous offset, stopping at 0.
    pub fn next(&mut self)
        requires
            old(self)@.can_step(),
        ensures
            final(self)@ == old(self)@.stepped(),
    {
        proof {
            use_type_invariant(&*self);
        }
        match self.mode {
            QueMode::Up => {
                self.id = (self.id + 1) % self.width;
            },
            QueMode::Down => {
                if self.id > 0 {
                    self.id = self.id - 1;
                }
            },
        }
    }

    /// Offset of the active layer inside the window.
    pub fn get_id(&self) -> (r: usize)
        ensures
            r == self@.id,
    {
        self.id
    }

    /// Number of layers of the note.
    pub fn depth(&self) -> (r: usize)
        ensures
            r == self@.depth,
    {
        self.depth
    }

    /// Size of the window.
    pub fn width(&self) -> (r: usize)
        ensures
            r == self@.width,
    {
        self.width
    }

    /// Resizes the window; it never grows past the number of layers, and
    /// the offset is folded back into the new window.
    pub fn set_width(&mut self, width: usize)
        ensures
            final(self)@ == old(self)@.resized(width),
    {
        let w = if width < self.depth {
            width
        } else {
            self.depth
        };
        let id = if w > 0 {
            self.id % w
        } else {
            0
        };
        *self = Que { id, width: w, depth: self.depth, mode: self.mode };
    }
}

/// Operations keep a queue's number of layers.
pub proof fn lemma_depth_kept(q: QueView, ops: Seq<QueOp>)
    ensures
        q.after(ops).depth == q.depth,
        q.after(ops).mode == q.mode,
    decreases ops.len(),
{
    if ops.len() > 0 {
        lemma_depth_kept(q, ops.drop_last());
    }
}

/// Resizing sets the window to the asked width, or to the note's depth
/// where that is smaller, keeps the note and the direction, and keeps an
/// offset that the new window still holds.
pub proof fn lemma_resized_window(q: QueView, width: usize)
    ensures
        width < q.depth ==> q.resized(width).width == width,
        width >= q.depth ==> q.resized(width).width == q.depth,
        q.resized(width).depth == q.depth,
        q.resized(width).mode == q.mode,
        q.id < q.resized(width).width ==> q.resized(width).id == q.id,
        q.resized(width).wf(),
{
    let w = q.resized(width).width;
    if w > 0 {
        vstd::arithmetic::div_mod::lemma_mod_bound(q.id as int, w as int);
        if q.id < w {
            vstd::arithmetic::div_mod::lemma_small_mod(q.id as nat, w as nat);
        }
    }
}

/// A queue whose window fits in its note keeps it so, and its offset stays
/// inside the window, whatever steps and resizes it goes through.
pub proof fn lemma_window_kept(q: QueView, ops: Seq<QueOp>)
    requires
        q.width <= q.depth,
        q.wf(),
        q.can_run(ops),
    ensures
        q.after(ops).width <= q.after(ops).depth,
        q.after(ops).wf(),
    decreases ops.len(),
{
    if ops.len() > 0 {
        lemma_window_kept(q, ops.drop_last());
        lemma_depth_kept(q, ops.drop_last());
    }
}

/// The `k` steps of a sequence of `Next` operations.
pub open spec fn steps(k: nat) -> Seq<QueOp> {
    Seq::new(k, |i: int| QueOp::Next)
}

/// An upward queue started at offset 0 is, after `k` steps, at offset
/// `k % width`: it walks through its window and comes round again.
pub proof fn lemma_up_walks_window(q: QueView, k: nat)
    requires
        q.mode == QueMode::Up,
        q.width >= 1,
        q.id == 0,
    ensures
        q.after(steps(k)).id == k % (q.width as nat),
        q.after(steps(k)).id < q.width,
        q.after(steps(k)).width == q.width,
    decreases k,
{
    if k > 0 {
        assert(steps(k).drop_last() =~= steps((k - 1) as nat));
        lemma_up_walks_window(q, (k - 1) as nat);
        lemma_depth_kept(q, steps((k - 1) as nat));
        vstd::arithmetic::div_mod::lemma_add_mod_noop_right(1, k - 1, q.width as int);
    } else {
        vstd::arithmetic::div_mod::lemma_small_mod(0, q.width as nat);
    }
}

/// A full turn: after `width` steps an upward queue is back where it
/// started, so every layer of the window comes round in turn.
pub proof fn lemma_full_turn(q: QueView)
    requires
        q.mode == QueMode::Up,
        q.width >= 1,
        q.id == 0,
    ensures
        q.after(steps(q.width as nat)).id == 0,
{
    lemma_up_walks_window(q, q.width as nat);
    vstd::arithmetic::div_mod::lemma_mod_self_0(q.width as int);
}

/// In a window of two positions or more, a step of an upward queue always
/// changes its offset.
pub proof fn lemma_step_changes_offset(q: QueView)
    requires
        q.mode == QueMode::Up,
        q.width >= 2,
        q.wf(),
    ensures
        q.stepped().id != q.id,
{
    if q.id + 1 < q.width {
        vstd::arithmetic::div_mod::lemma_small_mod((q.id + 1) as nat, q.width as nat);
    } else {
        vstd::arithmetic::div_mod::lemma_mod_self_0(q.width as int);
    }
}

/// A downward queue descends one offset per step until 0, and stays there.
pub proof fn lemma_down_descends(q: QueView, k: nat)
    requires
        q.mode == QueMode::Down,
    ensures
        q.after(steps(k)).id == if q.id > k { q.id - k } else { 0 },
    decreases k,
{
    if k > 0 {
        assert(steps(k).drop_last() =~= steps((k - 1) as nat));
        lemma_down_descends(q, (k - 1) as nat);
        lemma_depth_kept(q, steps((k - 1) as nat));
    }
}

} // verus!
