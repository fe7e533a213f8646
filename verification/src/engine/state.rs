use vstd::prelude::*;
use crate::engine::que::{Que, QueMode, QueView};

verus! {

/// Width of the layer window of a note when nothing else is asked for.
pub const DEFAULT_QUE_WIDTH: usize = 4;

/// Number of MIDI pitches.
pub const PITCHES: usize = 128;

/// Highest MIDI velocity; velocities are scaled from `0..=MAX_VELOCITY`.
pub const MAX_VELOCITY: usize = 127;

/// The layer a velocity selects in a queue.
///
/// The velocity, read on the scale `0..=127`, is mapped onto the layers that
/// lie below the window (`depth - width` of them, rounded down), and the
/// current offset of the window is added. A value beyond `usize::MAX` is
/// clamped to `usize::MAX`.
pub open spec fn layer_for(q: QueView, velocity: nat) -> nat {
    let span = q.depth - q.width;
    let pos = velocity * span / (MAX_VELOCITY as int) + q.id;
    if pos > usize::MAX {
        usize::MAX as nat
    } else {
        pos as nat
    }
}

/// The layer picked when the position below the window has already been
/// computed: `offset` plus the current offset of the window, clamped to `usize::MAX`.
pub open spec fn layer_at_offset(q: QueView, offset: nat) -> nat {
    let pos = offset + q.id;
    if pos > usize::MAX {
        usize::MAX as nat
    } else {
        pos as nat
    }
}

/// The queue a note of `layers` layers gets, with a window of `width`.
pub open spec fn fresh_que(layers: usize, width: usize) -> QueView {
    QueView { id: 0, width: if width < layers { width } else { layers }, depth: layers, mode: QueMode::Up }
}

/// A queue of the engine: it moves up, its window fits in its note, and
/// its offset is inside its window.
pub open spec fn que_ok(q: QueView) -> bool {
    &&& q.mode == QueMode::Up
    &&& q.width <= q.depth
    &&& q.wf()
}

/// The state of the engine: the width last set for all queues, and the
/// queue of each pitch (`None` where no note was added).
pub struct StateView {
    pub width: usize,
    pub ques: Seq<Option<QueView>>,
}

/// An operation on the engine state.
pub enum StateOp {
    /// `add_note(note, layers, width)`.
    AddNote(usize, usize, usize),
    /// `set_width(width)`.
    SetWidth(usize),
    /// `get_layer(pitch, _)` or `get_layer_at_offset(pitch, _)`.
    GetLayer(usize),
}

impl StateView {
    /// 128 pitches; every queue's window fits in its note, and its offset
    /// is inside its window.
    pub open spec fn wf(self) -> bool {
        &&& self.ques.len() == 128
        &&& forall|p: int|
            0 <= p < 128 && (#[trigger] self.ques[p]) is Some ==> que_ok(self.ques[p]->0)
    }

    /// The state after one operation.
    pub open spec fn apply(self, op: StateOp) -> StateView {
        match op {
            StateOp::AddNote(note, layers, width) => StateView {
                width: self.width,
                ques: self.ques.update(note as int, Some(fresh_que(layers, width))),
            },
            StateOp::SetWidth(width) => StateView {
                width,
                ques: self.ques.map_values(
                    |o: Option<QueView>|
                        match o {
                            Some(q) => Some(q.resized(width)),
                            None => None,
                        },
                ),
            },
            StateOp::GetLayer(pitch) => StateView {
                width: self.width,
                ques: self.ques.update(
                    pitch as int,
                    match self.ques[pitch as int] {
                        Some(q) => Some(q.stepped()),
                        None => None,
                    },
                ),
            },
        }
    }

    /// The state after a sequence of operations, in order.
    pub open spec fn after(self, ops: Seq<StateOp>) -> StateView
        decreases ops.len(),
    {
        if ops.len() == 0 {
            self
        } else {
            self.after(ops.drop_last()).apply(ops.last())
        }
    }

    /// The operation can be made: its pitch is a MIDI pitch, and a layer is
    /// only asked of a queue that has a window to move in.
    pub open spec fn can_apply(self, op: StateOp) -> bool {
        match op {
            StateOp::AddNote(note, _, _) => note < PITCHES,
            StateOp::SetWidth(_) => true,
            StateOp::GetLayer(pitch) => pitch < PITCHES && (self.ques[pitch as int] is Some
                ==> self.ques[pitch as int]->0.width > 0),
        }
    }

    /// Every operation of the sequence can be made when its turn comes.
    pub open spec fn can_run(self, ops: Seq<StateOp>) -> bool
        decreases ops.len(),
    {
        if ops.len() == 0 {
            true
        } else {
            self.can_run(ops.drop_last()) && self.after(ops.drop_last()).can_apply(ops.last())
        }
    }
}

/// A scaled velocity never passes the number of positions it is scaled onto.
proof fn lemma_scaled_at_most_span(velocity: int, span: int)
    requires
        0 <= velocity <= MAX_VELOCITY,
        span >= 0,
    ensures
        velocity * span / (MAX_VELOCITY as int) <= span,
        velocity * span / (MAX_VELOCITY as int) >= 0,
{
    assert(velocity * span <= 127 * span) by (nonlinear_arith)
        requires
            velocity <= 127,
            span >= 0,
    ;
    assert(velocity * span >= 0) by (nonlinear_arith)
        requires
            velocity >= 0,
            span >= 0,
    ;
    vstd::arithmetic::div_mod::lemma_div_is_ordered(velocity * span, 127 * span, 127);
    vstd::arithmetic::div_mod::lemma_div_multiples_vanish(span, 127);
    vstd::arithmetic::div_mod::lemma_div_pos_is_pos(velocity * span, 127);
}

/// Every MIDI velocity picks a layer that the note has, from a queue whose
/// offset is inside a window that fits in the note: the highest velocity
/// reaches the top of the positions below the window, and the window adds
/// less than its width.
pub proof fn lemma_layer_in_note(q: QueView, velocity: nat)
    requires
        velocity <= MAX_VELOCITY,
        q.width <= q.depth,
        q.id < q.width,
    ensures
        layer_for(q, velocity) < q.depth,
{
    lemma_scaled_at_most_span(velocity as int, q.depth - q.width);
}

/// The layer a MIDI velocity picks, in closed form: the velocity scaled
/// from `0..=127` onto the `depth - width` layers below the window,
/// rounded down, plus the window's offset. The scaled part is
/// proportional to the velocity: `v * span / 127`, exactly.
pub proof fn lemma_layer_closed_form(q: QueView, velocity: nat)
    requires
        velocity <= 127,
        q.width <= q.depth,
        q.id < q.width,
    ensures
        layer_for(q, velocity) == velocity * (q.depth - q.width) / 127 + q.id,
        velocity * (q.depth - q.width) / 127 <= q.depth - q.width,
        0 <= velocity * (q.depth - q.width) / 127,
        127 * (velocity * (q.depth - q.width) / 127) <= velocity * (q.depth - q.width),
        velocity * (q.depth - q.width) < 127 * (velocity * (q.depth - q.width) / 127 + 1),
{
    let span = q.depth - q.width;
    lemma_scaled_at_most_span(velocity as int, span);
    assert(velocity * span >= 0) by (nonlinear_arith)
        requires
            span >= 0,
    ;
    vstd::arithmetic::div_mod::lemma_fundamental_div_mod(velocity * span, 127);
    vstd::arithmetic::div_mod::lemma_mod_bound(velocity * span, 127);
}

/// A harder note never gets a softer layer: for a given queue, the layer
/// grows with the velocity, and the highest velocity reaches the top of
/// the positions below the window.
pub proof fn lemma_layer_monotonic(q: QueView, v1: nat, v2: nat)
    requires
        v1 <= v2 <= MAX_VELOCITY,
        q.width <= q.depth,
    ensures
        layer_for(q, v1) <= layer_for(q, v2),
        layer_for(q, MAX_VELOCITY as nat) == if q.depth - q.width + q.id > usize::MAX {
            usize::MAX as int
        } else {
            q.depth - q.width + q.id
        },
{
    let span = q.depth - q.width;
    assert(v1 * span <= v2 * span) by (nonlinear_arith)
        requires
            v1 <= v2,
            span >= 0,
    ;
    vstd::arithmetic::div_mod::lemma_div_is_ordered(v1 * span, v2 * span, 127);
    vstd::arithmetic::div_mod::lemma_div_multiples_vanish(span, 127);
    assert(127 * span == (MAX_VELOCITY as nat) * span);
}

/// No layer is played twice in succession: in a window of two layers or
/// more, two successive notes of the same velocity at the same pitch get
/// different layers (`q` is the pitch's queue before the first note; the
/// first note leaves it at `q.stepped()`).
pub proof fn lemma_successive_layers_differ(s: StateView, pitch: int, velocity: nat)
    requires
        s.wf(),
        0 <= pitch < 128,
        s.ques[pitch] is Some,
        s.ques[pitch]->0.width >= 2,
        velocity <= MAX_VELOCITY,
    ensures
        layer_for(s.ques[pitch]->0, velocity) != layer_for(s.ques[pitch]->0.stepped(), velocity),
{
    let q = s.ques[pitch]->0;
    crate::engine::que::lemma_step_changes_offset(q);
    lemma_scaled_at_most_span(velocity as int, q.depth - q.width);
    assert(q.stepped().id < q.width);
}

/// Every operation keeps the state well formed: windows stay inside their
/// notes and offsets inside their windows.
pub proof fn lemma_apply_keeps_wf(s: StateView, op: StateOp)
    requires
        s.wf(),
        s.can_apply(op),
    ensures
        s.apply(op).wf(),
{
    let t = s.apply(op);
    match op {
        StateOp::SetWidth(w) => {
            assert forall|p: int| 0 <= p < 128 && (#[trigger] t.ques[p]) is Some implies que_ok(t.ques[p]->0) by {
                assert(s.ques[p] is Some);
            }
        },
        StateOp::GetLayer(pitch) => {
            assert forall|p: int| 0 <= p < 128 && (#[trigger] t.ques[p]) is Some implies que_ok(t.ques[p]->0) by {
                assert(s.ques[p] is Some);
            }
        },
        StateOp::AddNote(..) => {},
    }
}

/// Whatever the operations, a well-formed state stays well formed: every
/// layer the engine picks for a MIDI velocity is a layer of the note.
pub proof fn lemma_after_keeps_wf(s: StateView, ops: Seq<StateOp>)
    requires
        s.wf(),
        s.can_run(ops),
    ensures
        s.after(ops).wf(),
    decreases ops.len(),
{
    if ops.len() > 0 {
        lemma_after_keeps_wf(s, ops.drop_last());
        lemma_apply_keeps_wf(s.after(ops.drop_last()), ops.last());
    }
}

/// Adding notes and picking layers never changes the width last set for
/// all queues.
pub proof fn lemma_width_kept(s: StateView, ops: Seq<StateOp>)
    requires
        forall|i: int| 0 <= i < ops.len() ==> !(#[trigger] ops[i] is SetWidth),
    ensures
        s.after(ops).width == s.width,
    decreases ops.len(),
{
    if ops.len() > 0 {
        assert forall|i: int| 0 <= i < ops.drop_last().len() implies !(#[trigger] ops.drop_last()[i] is SetWidth) by {
            assert(ops.drop_last()[i] == ops[i]);
        }
        lemma_width_kept(s, ops.drop_last());
        assert(!(ops[ops.len() - 1] is SetWidth));
    }
}

/// Picking layers keeps each pitch's note: which pitches have a queue,
/// and the number of layers of each queue, are unchanged.
pub proof fn lemma_layers_kept(s: StateView, ops: Seq<StateOp>, pitch: int)
    requires
        forall|i: int| 0 <= i < ops.len() ==> #[trigger] ops[i] is GetLayer,
        s.wf(),
        s.can_run(ops),
        0 <= pitch < 128,
    ensures
        s.after(ops).ques.len() == s.ques.len(),
        s.after(ops).ques[pitch] is Some <==> s.ques[pitch] is Some,
        s.ques[pitch] is Some ==> s.after(ops).ques[pitch]->0.depth == s.ques[pitch]->0.depth,
        s.ques[pitch] is Some ==> s.after(ops).ques[pitch]->0.width == s.ques[pitch]->0.width,
    decreases ops.len(),
{
    if ops.len() > 0 {
        assert forall|i: int| 0 <= i < ops.drop_last().len() implies #[trigger] ops.drop_last()[i] is GetLayer by {
            assert(ops.drop_last()[i] == ops[i]);
        }
        lemma_layers_kept(s, ops.drop_last(), pitch);
        lemma_after_keeps_wf(s, ops.drop_last());
        assert(ops[ops.len() - 1] is GetLayer);
    }
}

/// Per-pitch layer queues (pitches are `0..128`).
#[derive(Debug)]
pub struct VelocityState {
    global_width: usize,
    ques: [Option<Que>; 128],
}

proof fn lemma_scaled_fits(velocity: usize, span: usize)
    ensures
        (velocity as int) * (span as int) < 0x1_0000_0000_0000_0000_0000_0000_0000_0000,
        (velocity as int) * (span as int) >= 0,
{
    assert((velocity as int) * (span as int) <= (usize::MAX as int) * (usize::MAX as int))
        by (nonlinear_arith);
    assert((velocity as int) * (span as int) >= 0) by (nonlinear_arith);
}

/// The state of a queue slot.
pub open spec fn slot_view(o: Option<Que>) -> Option<QueView> {
    match o {
        Some(q) => Some(q@),
        None => None,
    }
}

impl View for VelocityState {
    type V = StateView;

    closed spec fn view(&self) -> StateView {
        StateView { width: self.global_width, ques: self.ques@.map_values(|o: Option<Que>| slot_view(o)) }
    }
}

impl VelocityState {
    #[verifier::type_invariant]
    closed spec fn inv(self) -> bool {
        forall|p: int| 0 <= p < 128 && (#[trigger] self.ques@[p]) is Some ==> que_ok(self.ques@[p]->0@)
    }

    proof fn lemma_view(self)
        ensures
            self@.ques.len() == 128,
            forall|p: int| 0 <= p < 128 ==> #[trigger] self@.ques[p] == slot_view(self.ques@[p]),
            self.inv() ==> self@.wf(),
    {
        assert forall|p: int| 0 <= p < 128 implies #[trigger] self@.ques[p] == slot_view(self.ques@[p]) by {}
        if self.inv() {
            assert forall|p: int| 0 <= p < 128 && (#[trigger] self@.ques[p]) is Some implies que_ok(self@.ques[p]->0) by {
                assert(self.ques@[p] is Some);
            }
        }
    }

    /// Every state is well formed: 128 pitches, every queue moving up with
    /// its window inside its note and its offset inside its window.
    pub fn ensure_wf(&self)
        ensures
            self@.wf(),
    {
        proof {
            use_type_invariant(self);
            self.lemma_view();
        }
    }

    /// Registers a note of `layers_number` layers at pitch `note`, with a
    /// window of `que_width` layers (at most all of them), starting at offset 0.
    pub fn add_note(&mut self, note: usize, layers_number: usize, que_width: usize)
        requires
            note < PITCHES,
        ensures
            final(self)@ == old(self)@.apply(StateOp::AddNote(note, layers_number, que_width)),
            final(self)@.width == old(self)@.width,
            final(self)@.ques[note as int] == Some(
                (QueView {
                    id: 0,
                    width: if que_width < layers_number {
                        que_width
                    } else {
                        layers_number
                    },
                    depth: layers_number,
                    mode: QueMode::Up,
                }),
            ),
            forall|p: int| 0 <= p < 128 && p != note ==> #[trigger] final(self)@.ques[p] == old(self)@.ques[p],
    {
        proof {
            use_type_invariant(&*self);
            self.lemma_view();
        }
        let width = if que_width < layers_number {
            que_width
        } else {
            layers_number
        };
        let que = Que::new(width, layers_number, QueMode::Up);
        self.ques[note] = Some(que);
        proof {
            self.lemma_view();
            assert(self@.ques =~= old(self)@.apply(StateOp::AddNote(note, layers_number, que_width)).ques);
        }
    }

    /// The width last set for all queues.
    pub fn width(&self) -> (r: usize)
        ensures
            r == self@.width,
    {
        self.global_width
    }

    /// Sets the width of every queue: each becomes `width`, or the number of
    /// layers of its note where that is smaller, and offsets are folded
    /// back into the new windows.
    pub fn set_width(&mut self, width: usize)
        ensures
            final(self)@ == old(self)@.apply(StateOp::SetWidth(width)),
    {
        proof {
            use_type_invariant(&*self);
            self.lemma_view();
        }
        let ghost target = old(self)@.apply(StateOp::SetWidth(width));
        let mut i: usize = 0;
        while i < PITCHES
            invariant
                0 <= i <= 128,
                self.global_width == old(self).global_width,
                target == old(self)@.apply(StateOp::SetWidth(width)),
                forall|p: int| 0 <= p < 128 ==> #[trigger] old(self)@.ques[p] == slot_view(old(self).ques@[p]),
                old(self)@.ques.len() == 128,
                forall|p: int| i <= p < 128 ==> #[trigger] self.ques@[p] == old(self).ques@[p],
                forall|p: int| 0 <= p < i ==> #[trigger] slot_view(self.ques@[p]) == target.ques[p],
            decreases 128 - i,
        {
            proof {
                use_type_invariant(&*self);
            }
            if let Some(q) = self.ques[i] {
                let mut q = q;
                q.set_width(width);
                self.ques[i] = Some(q);
            }
            i = i + 1;
        }
        proof {
            use_type_invariant(&*self);
        }
        self.global_width = width;
        proof {
            self.lemma_view();
            assert(self@.ques =~= target.ques);
        }
    }

    /// The queue of a pitch, if a note was added for it.
    pub fn que(&self, pitch: usize) -> (r: Option<Que>)
        requires
            pitch < PITCHES,
        ensures
            slot_view(r) == self@.ques[pitch as int],
    {
        proof {
            self.lemma_view();
        }
        self.ques[pitch]
    }

    /// The number of layers below the window of a pitch's queue, which the
    /// velocity is scaled onto; `None` when no note was added for the pitch.
    pub fn span(&self, pitch: usize) -> (r: Option<usize>)
        requires
            pitch < PITCHES,
        ensures
            r is None <==> self@.ques[pitch as int] is None,
            r is Some ==> r->0 == self@.ques[pitch as int]->0.depth - self@.ques[pitch as int]->0.width,
    {
        proof {
            use_type_invariant(self);
            self.lemma_view();
        }
        match self.ques[pitch] {
            None => None,
            Some(q) => Some(q.depth() - q.width()),
        }
    }

    /// Picks the layer for a note of `velocity` (on the MIDI scale
    /// `0..=127`) at `pitch`, and moves that pitch's queue one step so that
    /// the next note of the same velocity lands on a neighbouring layer.
    /// Returns `None`, and changes nothing, when no note was added for the
    /// pitch. A MIDI velocity always gets a layer of the note.
    pub fn get_layer(&mut self, pitch: usize, velocity: usize) -> (r: Option<usize>)
        requires
            old(self)@.can_apply(StateOp::GetLayer(pitch)),
        ensures
            r == match old(self)@.ques[pitch as int] {
                Some(q) => Some(layer_for(q, velocity as nat) as usize),
                None => None,
            },
            final(self)@ == old(self)@.apply(StateOp::GetLayer(pitch)),
            r is Some && velocity <= MAX_VELOCITY ==> r->0 < old(self)@.ques[pitch as int]->0.depth,
            old(self)@.ques[pitch as int] is Some && velocity <= MAX_VELOCITY ==> r == Some(
                (velocity * (old(self)@.ques[pitch as int]->0.depth - old(self)@.ques[pitch as int]->0.width) / 127
                    + old(self)@.ques[pitch as int]->0.id) as usize,
            ),
            old(self)@.ques[pitch as int] is Some ==> r == Some(
                if velocity * (old(self)@.ques[pitch as int]->0.depth - old(self)@.ques[pitch as int]->0.width) / 127
                    + old(self)@.ques[pitch as int]->0.id > usize::MAX {
                    usize::MAX
                } else {
                    (velocity * (old(self)@.ques[pitch as int]->0.depth - old(self)@.ques[pitch as int]->0.width) / 127
                        + old(self)@.ques[pitch as int]->0.id) as usize
                },
            ),
    {
        proof {
            use_type_invariant(&*self);
            self.lemma_view();
        }
        match self.ques[pitch] {
            None => {
                proof {
                    assert(self@.ques =~= old(self)@.apply(StateOp::GetLayer(pitch)).ques);
                }
                None
            },
            Some(q) => {
                let mut que = q;
                let span = que.depth() - que.width();
                proof {
                    lemma_scaled_fits(velocity, span);
                    if velocity <= MAX_VELOCITY {
                        lemma_layer_in_note(que@, velocity as nat);
                    }
                }
                let scaled: u128 = (velocity as u128) * (span as u128) / 127;
                let pos: u128 = scaled + (que.get_id() as u128);
                let idx: usize = if pos > (usize::MAX as u128) {
                    usize::MAX
                } else {
                    pos as usize
                };
                que.next();
                self.ques[pitch] = Some(que);
                proof {
                    self.lemma_view();
                    assert(self@.ques =~= old(self)@.apply(StateOp::GetLayer(pitch)).ques);
                }
                Some(idx)
            },
        }
    }

    /// Like `get_layer`, for a caller that has already scaled the velocity
    /// onto the layers below the window (`offset`): the layer is `offset`
    /// plus the window's offset, and the queue moves one step.
    pub fn get_layer_at_offset(&mut self, pitch: usize, offset: usize) -> (r: Option<usize>)
        requires
            old(self)@.can_apply(StateOp::GetLayer(pitch)),
        ensures
            r == match old(self)@.ques[pitch as int] {
                Some(q) => Some(layer_at_offset(q, offset as nat) as usize),
                None => None,
            },
            final(self)@ == old(self)@.apply(StateOp::GetLayer(pitch)),
            r is Some && offset <= old(self)@.ques[pitch as int]->0.depth - old(self)@.ques[pitch as int]->0.width
                ==> r->0 < old(self)@.ques[pitch as int]->0.depth,
            old(self)@.ques[pitch as int] is Some ==> r == Some(
                if offset + old(self)@.ques[pitch as int]->0.id > usize::MAX {
                    usize::MAX
                } else {
                    (offset + old(self)@.ques[pitch as int]->0.id) as usize
                },
            ),
    {
        proof {
            use_type_invariant(&*self);
            self.lemma_view();
        }
        match self.ques[pitch] {
            None => {
                proof {
                    assert(self@.ques =~= old(self)@.apply(StateOp::GetLayer(pitch)).ques);
                }
                None
            },
            Some(q) => {
                let mut que = q;
                proof {
                    assert(self@.ques[pitch as int] == Some(que@));
                }
                let idx = offset.saturating_add(que.get_id());
                que.next();
                self.ques[pitch] = Some(que);
                proof {
                    self.lemma_view();
                    assert(self@.ques =~= old(self)@.apply(StateOp::GetLayer(pitch)).ques);
                }
                Some(idx)
            },
        }
    }
}

impl Default for VelocityState {
    /// No notes, and the default width.
    fn default() -> (r: Self)
        ensures
            r@.width == DEFAULT_QUE_WIDTH,
            r@.wf(),
            r@.ques =~= Seq::new(128, |p: int| None::<QueView>),
    {
        let r = VelocityState { global_width: DEFAULT_QUE_WIDTH, ques: [None; 128] };
        proof {
            r.lemma_view();
            assert(r@.ques =~= Seq::new(128, |p: int| None::<QueView>));
        }
        r
    }
}

} // verus!
