//! The sampler engine: a library of notes, each a stack of velocity layers,
//! and the per-pitch queues that pick a layer for every incoming note.

pub mod note;
pub mod que;
pub mod state;

use vstd::prelude::*;
use crate::engine::note::Note;
use crate::engine::que::QueMode;
use crate::engine::state::{
    VelocityState, StateOp, StateView, DEFAULT_QUE_WIDTH, MAX_VELOCITY, PITCHES, fresh_que, layer_for,
    lemma_layer_in_note, lemma_after_keeps_wf, lemma_layers_kept, que_ok,
};

verus! {

/// Whether a character is an ASCII decimal digit.
pub open spec fn is_digit(c: char) -> bool {
    '0' <= c <= '9'
}

/// The value of an ASCII decimal digit.
pub open spec fn digit_value(c: char) -> nat {
    (c as int - '0' as int) as nat
}

/// The last `/`-separated component of a path (the whole path when it has
/// no `/`; empty when it ends with `/`).
pub open spec fn last_component(path: Seq<char>) -> Seq<char>
    decreases path.len(),
{
    if path.len() == 0 {
        path
    } else if path.last() == '/' {
        Seq::empty()
    } else {
        last_component(path.drop_last()).push(path.last())
    }
}

/// The pitch a note folder's name starts with: the first two characters of
/// the last component of its path, read as an unsigned decimal number (two
/// digits, or `+` and one digit). `None` when they are not such a number.
pub open spec fn pitch_of(path: Seq<char>) -> Option<nat> {
    let c = last_component(path);
    if c.len() < 2 {
        None
    } else if is_digit(c[0]) && is_digit(c[1]) {
        Some(10 * digit_value(c[0]) + digit_value(c[1]))
    } else if c[0] == '+' && is_digit(c[1]) {
        Some(digit_value(c[1]))
    } else {
        None
    }
}

/// The last component of a path is what follows its last `/`.
pub proof fn lemma_last_component_after_slash(dir: Seq<char>, name: Seq<char>)
    requires
        forall|j: int| 0 <= j < name.len() ==> name[j] != '/',
    ensures
        last_component(dir.push('/') + name) == name,
    decreases name.len(),
{
    let path = dir.push('/') + name;
    if name.len() == 0 {
        assert(path =~= dir.push('/'));
        assert(name =~= Seq::<char>::empty());
    } else {
        assert(path.drop_last() =~= dir.push('/') + name.drop_last());
        lemma_last_component_after_slash(dir, name.drop_last());
        assert(name.drop_last().push(name.last()) =~= name);
    }
}

/// A folder named `PP...` (two digits first) under any directory has pitch
/// `PP`, read in decimal, whatever the rest of its name and of the path.
pub proof fn lemma_pitch_of_folder(dir: Seq<char>, c0: char, c1: char, rest: Seq<char>)
    requires
        is_digit(c0),
        is_digit(c1),
        forall|j: int| 0 <= j < rest.len() ==> rest[j] != '/',
    ensures
        pitch_of(dir.push('/') + (seq![c0, c1] + rest)) == Some(10 * digit_value(c0) + digit_value(c1)),
{
    let name = seq![c0, c1] + rest;
    assert forall|j: int| 0 <= j < name.len() implies name[j] != '/' by {
        if j >= 2 {
            assert(name[j] == rest[j - 2]);
        }
    }
    lemma_last_component_after_slash(dir, name);
}

/// Reads the pitch from the path of a note folder (see `pitch_of`).
pub fn pitch_from_path(path: &str) -> (r: Option<usize>)
    ensures
        r is Some <==> pitch_of(path@) is Some,
        r is Some ==> r->0 == pitch_of(path@)->0,
        r is Some ==> r->0 < 100,
{
    let n = path.unicode_len();
    let mut k: usize = n;
    proof {
        assert(path@.take(n as int) =~= path@);
        assert(path@.subrange(n as int, n as int) =~= Seq::<char>::empty());
    }
    while k > 0 && path.get_char(k - 1) != '/'
        invariant
            k <= n,
            n == path@.len(),
            last_component(path@) =~= last_component(path@.take(k as int)) + path@.subrange(k as int, n as int),
        decreases k,
    {
        proof {
            let t = path@.take(k as int);
            assert(t.drop_last() =~= path@.take(k - 1));
            assert(t.last() == path@[k - 1]);
            assert(path@.subrange(k - 1, n as int) =~= seq![path@[k - 1]] + path@.subrange(k as int, n as int));
        }
        k = k - 1;
    }
    proof {
        if k > 0 {
            assert(path@.take(k as int).last() == path@[k - 1]);
        }
        assert(last_component(path@) =~= path@.subrange(k as int, n as int));
    }
    if n - k < 2 {
        return None;
    }
    let c0 = path.get_char(k);
    let c1 = path.get_char(k + 1);
    if !('0' <= c1 && c1 <= '9') {
        return None;
    }
    let d1 = (c1 as u32 - '0' as u32) as usize;
    if '0' <= c0 && c0 <= '9' {
        let d0 = (c0 as u32 - '0' as u32) as usize;
        Some(10 * d0 + d1)
    } else if c0 == '+' {
        Some(d1)
    } else {
        None
    }
}

/// The notes of a sample library, indexed by MIDI pitch (`0..128`).
pub struct Library<S>(Vec<Option<Note<S>>>);

impl<S> Library<S> {
    #[verifier::type_invariant]
    closed spec fn inv(self) -> bool {
        self.0@.len() == 128
    }

    /// The layers of the note at a pitch, if the library has one there.
    pub closed spec fn note_at(&self, pitch: int) -> Option<Seq<S>> {
        match self.0@[pitch] {
            Some(n) => Some(n@),
            None => None,
        }
    }

    /// A library without notes.
    pub fn empty() -> (r: Self)
        ensures
            forall|p: int| 0 <= p < 128 ==> #[trigger] r.note_at(p) is None,
    {
        let mut notes: Vec<Option<Note<S>>> = Vec::new();
        let mut i: usize = 0;
        while i < PITCHES
            invariant
                i <= 128,
                notes@.len() == i,
                forall|p: int| 0 <= p < i ==> #[trigger] notes@[p] is None,
            decreases 128 - i,
        {
            notes.push(None);
            i = i + 1;
        }
        Library(notes)
    }

    /// The library with `note` at `pitch`, in place of what was there.
    pub fn with_note(self, pitch: usize, note: Note<S>) -> (r: Self)
        requires
            pitch < PITCHES,
        ensures
            r.note_at(pitch as int) == Some(note@),
            forall|p: int| 0 <= p < 128 && p != pitch ==> #[trigger] r.note_at(p) == self.note_at(p),
    {
        proof {
            use_type_invariant(&self);
        }
        let Library(mut notes) = self;
        notes.set(pitch, Some(note));
        Library(notes)
    }

    /// The number of layers of the note at a pitch, if the library has one there.
    pub fn note_depth(&self, pitch: usize) -> (r: Option<usize>)
        requires
            pitch < PITCHES,
        ensures
            r is Some <==> self.note_at(pitch as int) is Some,
            r is Some ==> r->0 == self.note_at(pitch as int)->0.len(),
    {
        proof {
            use_type_invariant(self);
        }
        match &self.0[pitch] {
            Some(note) => Some(note.depth()),
            None => None,
        }
    }

    /// The layer `velocity_as_idx` of the note at `pitch`: the index the
    /// engine state picked for that pitch.
    pub fn get_note(&self, pitch: usize, velocity_as_idx: usize) -> (r: &S)
        requires
            pitch < PITCHES,
            self.note_at(pitch as int) is Some,
            velocity_as_idx < self.note_at(pitch as int)->0.len(),
        ensures
            *r == self.note_at(pitch as int)->0[velocity_as_idx as int],
    {
        proof {
            use_type_invariant(self);
        }
        let note = self.0[pitch].as_ref().unwrap();
        note.get_layer(velocity_as_idx)
    }

    /// The engine state `new_state` makes: one queue per note, over all its
    /// layers, with a window of `width` layers (at most all of them), at
    /// offset 0; the default width for all queues.
    pub open spec fn state_for(&self, width: usize) -> StateView {
        StateView {
            width: DEFAULT_QUE_WIDTH,
            ques: Seq::new(
                128,
                |p: int|
                    match self.note_at(p) {
                        Some(layers) => Some(fresh_que(layers.len() as usize, width)),
                        None => None,
                    },
            ),
        }
    }

    /// A fresh engine state for this library: the default width for all
    /// queues, no queue where the library has no note, and for a note of `n`
    /// layers a queue over those `n` layers, at offset 0, moving up, with a
    /// window of `default_que_width` layers, or `n` where that is smaller.
    pub fn new_state(&self, default_que_width: usize) -> (r: VelocityState)
        ensures
            r@ == self.state_for(default_que_width),
            r@.width == DEFAULT_QUE_WIDTH,
            r@.ques.len() == 128,
            forall|p: int| 0 <= p < 128 ==> ((#[trigger] r@.ques[p]) is None <==> self.note_at(p) is None),
            forall|p: int|
                0 <= p < 128 && self.note_at(p) is Some ==> (#[trigger] r@.ques[p])->0.depth == self.note_at(p)->0.len()
                    && r@.ques[p]->0.width == (if default_que_width < self.note_at(p)->0.len() {
                        default_que_width as int
                    } else {
                        self.note_at(p)->0.len() as int
                    }) && r@.ques[p]->0.id == 0 && r@.ques[p]->0.mode == QueMode::Up,
    {
        proof {
            use_type_invariant(self);
        }
        let mut state = VelocityState::default();
        let mut pitch: usize = 0;
        while pitch < PITCHES
            invariant
                pitch <= 128,
                self.0@.len() == 128,
                state@.width == DEFAULT_QUE_WIDTH,
                state@.ques.len() == 128,
                forall|p: int| pitch <= p < 128 ==> #[trigger] state@.ques[p] is None,
                forall|p: int| 0 <= p < pitch ==> #[trigger] state@.ques[p] == self.state_for(default_que_width).ques[p],
                forall|p: int|
                    0 <= p < pitch && (#[trigger] self.note_at(p)) is Some ==> self.note_at(p)->0.len() <= usize::MAX,
            decreases 128 - pitch,
        {
            if let Some(note) = &self.0[pitch] {
                state.add_note(pitch, note.depth(), default_que_width);
            }
            pitch = pitch + 1;
        }
        proof {
            assert(state@.ques =~= self.state_for(default_que_width).ques);
            assert forall|p: int| 0 <= p < 128 && self.note_at(p) is Some implies (#[trigger] state@.ques[p])->0.depth
                == self.note_at(p)->0.len() by {
                assert(self.note_at(p)->0.len() <= usize::MAX);
            }
        }
        state
    }

    /// The window asked of `new_state` is the window each note gets: a
    /// note of `n` layers gets a queue over `n` layers at offset 0 whose
    /// window holds `width` layers, or `n` where that is smaller; so
    /// `n - min(width, n)` layers lie below the window, and the highest
    /// velocity picks layer `n - min(width, n)`.
    pub proof fn lemma_new_state_window(self, width: usize, pitch: int)
        requires
            0 <= pitch < 128,
            self.note_at(pitch) is Some,
            self.note_at(pitch)->0.len() <= usize::MAX,
        ensures
            self.state_for(width).ques[pitch] is Some,
            self.state_for(width).ques[pitch]->0.id == 0,
            self.state_for(width).ques[pitch]->0.depth == self.note_at(pitch)->0.len(),
            width < self.note_at(pitch)->0.len() ==> self.state_for(width).ques[pitch]->0.width == width,
            width >= self.note_at(pitch)->0.len() ==> self.state_for(width).ques[pitch]->0.width
                == self.note_at(pitch)->0.len(),
            width < self.note_at(pitch)->0.len() ==> layer_for(self.state_for(width).ques[pitch]->0, 127)
                == self.note_at(pitch)->0.len() - width,
            width >= self.note_at(pitch)->0.len() ==> layer_for(self.state_for(width).ques[pitch]->0, 127) == 0,
    {
        let q = self.state_for(width).ques[pitch]->0;
        assert(127 * (q.depth - q.width) / 127 == q.depth - q.width) by {
            vstd::arithmetic::div_mod::lemma_div_multiples_vanish(q.depth - q.width, 127);
        }
    }

    /// Every index the engine picks for a MIDI velocity is a layer of the
    /// note in the library, so `get_note` can serve it: for a state made by
    /// `new_state` with a window of at least one layer, after any sequence
    /// of layer picks, the pitch's queue still has the note's number of
    /// layers and its offset inside its window.
    pub proof fn lemma_picked_layer_exists(self, width: usize, ops: Seq<StateOp>, pitch: int, velocity: nat)
        requires
            width >= 1,
            0 <= pitch < 128,
            self.note_at(pitch) is Some,
            1 <= self.note_at(pitch)->0.len() <= usize::MAX,
            forall|i: int| 0 <= i < ops.len() ==> #[trigger] ops[i] is GetLayer,
            self.state_for(width).can_run(ops),
            velocity <= MAX_VELOCITY,
        ensures
            self.state_for(width).after(ops).ques[pitch] is Some,
            self.state_for(width).after(ops).ques[pitch]->0.depth == self.note_at(pitch)->0.len(),
            layer_for(self.state_for(width).after(ops).ques[pitch]->0, velocity) < self.note_at(pitch)->0.len(),
    {
        let s0 = self.state_for(width);
        assert(s0.wf()) by {
            assert forall|p: int| 0 <= p < 128 && (#[trigger] s0.ques[p]) is Some implies que_ok(s0.ques[p]->0) by {
                assert(self.note_at(p) is Some);
            }
        }
        lemma_after_keeps_wf(s0, ops);
        lemma_layers_kept(s0, ops, pitch);
        let q = s0.after(ops).ques[pitch]->0;
        lemma_layer_in_note(q, velocity);
    }

    /// Number of pitches the library has room for.
    pub fn len(&self) -> (r: usize)
        ensures
            r == 128,
    {
        proof {
            use_type_invariant(self);
        }
        self.0.len()
    }
}

} // verus!
