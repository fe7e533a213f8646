use vstd::prelude::*;
use crate::performer::mello::Mello;
use crate::performer::que::Que;

verus! {

/// The layer a velocity resolves to: the velocity shifted by its queue's
/// position, folded back by the queue's width once per full `depth` it
/// passes.
pub open spec fn resolved_layer(velocity: int, q: Que, depth: int) -> int {
    let shifted = velocity + q.q_id;
    shifted - q.q_width * (shifted / depth)
}

/// `velocity` resolves to a layer through `q` without failing: a note
/// with layers, no overflow, and a layer that exists among `len`.
pub open spec fn resolvable(velocity: int, q: Que, depth: int, len: int) -> bool {
    let shifted = velocity + q.q_id;
    &&& depth > 0
    &&& shifted <= usize::MAX
    &&& q.q_width * (shifted / depth) <= shifted
    &&& 0 <= resolved_layer(velocity, q, depth) < len
}

/// Below the note's depth a velocity is only shifted by its queue's
/// position; from one to two full depths, it is folded back once by the
/// queue's width.
pub proof fn lemma_resolved_layer_fold(velocity: int, q: Que, depth: int)
    requires
        velocity >= 0,
        depth > 0,
    ensures
        velocity + q.q_id < depth ==> resolved_layer(velocity, q, depth) == velocity + q.q_id,
        depth <= velocity + q.q_id < 2 * depth ==> resolved_layer(velocity, q, depth) == velocity + q.q_id
            - q.q_width,
{
    let shifted = velocity + q.q_id;
    let k = shifted / depth;
    let w = q.q_width as int;
    if shifted < depth {
        vstd::arithmetic::div_mod::lemma_basic_div(shifted, depth);
        assert(w * k == 0) by (nonlinear_arith)
            requires
                k == 0,
        ;
    } else if shifted < 2 * depth {
        vstd::arithmetic::div_mod::lemma_fundamental_div_mod_converse(shifted, depth, 1, shifted - depth);
        assert(w * k == w) by (nonlinear_arith)
            requires
                k == 1,
        ;
    }
}

/// One step of a queue of two positions or more always changes the layer a
/// velocity resolves to.
pub proof fn lemma_step_moves_layer(velocity: int, q: Que, depth: int)
    requires
        q.q_width >= 2,
        q.q_id < q.q_width,
        depth > 0,
        velocity >= 0,
    ensures
        resolved_layer(velocity, q, depth) != resolved_layer(velocity, q.stepped(), depth),
{
    let w = q.q_width as int;
    let n = q.stepped();
    let d = q.q_id - n.q_id;
    if q.q_id + 1 < w {
        vstd::arithmetic::div_mod::lemma_small_mod((q.q_id + 1) as nat, w as nat);
        assert(d == -1);
    } else {
        vstd::arithmetic::div_mod::lemma_mod_self_0(w);
        assert(d == w - 1);
    }
    let k = (velocity + q.q_id) / depth - (velocity + n.q_id) / depth;
    assert(resolved_layer(velocity, q, depth) - resolved_layer(velocity, n, depth) == d - w * k) by (nonlinear_arith)
        requires
            d == q.q_id - n.q_id,
            k == (velocity + q.q_id) / depth - (velocity + n.q_id) / depth,
            w == q.q_width,
            n.q_width == q.q_width,
    ;
    assert(d - w * k != 0) by (nonlinear_arith)
        requires
            w >= 2,
            d == -1 || d == w - 1,
    ;
}

/// A note of the performer: a queue per velocity and its layers.
#[derive(Debug)]
pub struct Note {
    ques: [Que; 128],
    layers: Vec<Mello>,
    depth: usize,
    last_played: usize,
}

impl Note {
    /// The queue of a velocity.
    pub closed spec fn que_of(&self, velocity: int) -> Que {
        self.ques@[velocity]
    }

    /// The layers, in order.
    pub closed spec fn spec_layers(&self) -> Seq<Mello> {
        self.layers@
    }

    /// The number of layers the note was built with.
    pub closed spec fn spec_depth(&self) -> nat {
        self.depth as nat
    }

    /// The layer recorded as played last.
    pub closed spec fn spec_last_played(&self) -> nat {
        self.last_played as nat
    }

    /// The layer a velocity resolves to now.
    pub open spec fn layer_of(&self, velocity: int) -> int {
        resolved_layer(velocity, self.que_of(velocity), self.spec_depth() as int)
    }

    /// The inputs on which playing a velocity does not fail: a velocity of
    /// the MIDI range, a resolved layer that exists, and, when that layer
    /// was the last one played, a queue that can move and a layer that
    /// exists at its next position.
    pub open spec fn can_play(&self, velocity: int) -> bool {
        let q = self.que_of(velocity);
        let depth = self.spec_depth() as int;
        let len = self.spec_layers().len() as int;
        &&& 0 <= velocity < 128
        &&& resolvable(velocity, q, depth, len)
        &&& self.layer_of(velocity) == self.spec_last_played() ==> {
            &&& q.q_width > 0
            &&& q.q_id < usize::MAX
            &&& resolvable(velocity, q.stepped(), depth, len)
        }
    }

    /// A note over `layers` (as many as there are), with every velocity's
    /// queue at 0 over `q_width` positions, and layer 0 as last played.
    pub fn new_from_layers(q_width: usize, layers: Vec<Mello>) -> (n: Self)
        ensures
            n.spec_layers() == layers@,
            n.spec_depth() == layers@.len(),
            n.spec_last_played() == 0,
            forall|v: int| 0 <= v < 128 ==> #[trigger] n.que_of(v) == Que::new_spec(q_width),
    {
        let ques = [Que::new(q_width); 128];
        let depth = layers.len();
        Note { ques, layers, depth, last_played: 0 }
    }

    /// Whether `velocity` resolves to a layer through queue `q` without failing.
    fn resolvable_with(&self, velocity: usize, q: Que) -> (r: bool)
        ensures
            r == resolvable(velocity as int, q, self.spec_depth() as int, self.spec_layers().len() as int),
    {
        if self.depth == 0 || q.q_id > usize::MAX - velocity {
            return false;
        }
        let shifted = velocity + q.q_id;
        let overdraft = shifted / self.depth;
        proof {
            assert((q.q_width as int) * (overdraft as int) <= (usize::MAX as int) * (usize::MAX as int)) by (nonlinear_arith)
                requires
                    q.q_width <= usize::MAX,
                    overdraft <= usize::MAX,
            ;
            assert((q.q_width as int) * (overdraft as int) >= 0) by (nonlinear_arith);
        }
        if q.q_width as u128 * overdraft as u128 > shifted as u128 {
            return false;
        }
        let layer = shifted - q.q_width * overdraft;
        layer < self.layers.len()
    }

    /// Whether playing `velocity` succeeds (see `can_play`).
    pub fn playable(&self, velocity: usize) -> (r: bool)
        ensures
            r == self.can_play(velocity as int),
    {
        if velocity >= 128 {
            return false;
        }
        let q = self.ques[velocity];
        if !self.resolvable_with(velocity, q) {
            return false;
        }
        let layer = self.resolve_with(velocity, q);
        if layer == self.last_played {
            if q.q_width == 0 || q.q_id == usize::MAX {
                return false;
            }
            let mut next = q;
            next.next();
            self.resolvable_with(velocity, next)
        } else {
            true
        }
    }

    fn resolve_with(&self, velocity: usize, q: Que) -> (r: usize)
        requires
            resolvable(velocity as int, q, self.spec_depth() as int, self.spec_layers().len() as int),
        ensures
            r == resolved_layer(velocity as int, q, self.spec_depth() as int),
    {
        let shifted = velocity + q.q_id;
        let overdraft = shifted / self.depth;
        shifted - q.q_width * overdraft
    }

    /// Plays a note of `velocity`: picks its layer, records it as played
    /// last, and returns it. When the velocity resolves to the layer played
    /// last, the velocity's queue moves one step first and the note gets the
    /// layer it resolves to then, so that no layer is played twice in
    /// succession where the queue has two positions or more.
    pub fn play(&mut self, velocity: usize) -> (layer: usize)
        requires
            old(self).can_play(velocity as int),
        ensures
            layer == if old(self).layer_of(velocity as int) == old(self).spec_last_played() {
                resolved_layer(velocity as int, old(self).que_of(velocity as int).stepped(), old(self).spec_depth() as int)
            } else {
                old(self).layer_of(velocity as int)
            },
            layer < final(self).spec_layers().len(),
            final(self).que_of(velocity as int) == if old(self).layer_of(velocity as int) == old(self).spec_last_played() {
                old(self).que_of(velocity as int).stepped()
            } else {
                old(self).que_of(velocity as int)
            },
            forall|v: int| 0 <= v < 128 && v != velocity ==> #[trigger] final(self).que_of(v) == old(self).que_of(v),
            final(self).spec_layers() == old(self).spec_layers(),
            final(self).spec_depth() == old(self).spec_depth(),
            final(self).spec_last_played() == layer,
            old(self).que_of(velocity as int).q_width >= 2 && old(self).que_of(velocity as int).q_id < old(self).que_of(velocity as int).q_width
                ==> layer != old(self).spec_last_played(),
    {
        let q = self.ques[velocity];
        let mut layer = self.resolve_with(velocity, q);
        if layer == self.last_played {
            let mut next = q;
            next.next();
            self.ques[velocity] = next;
            layer = self.resolve_with(velocity, next);
            proof {
                if q.q_width >= 2 && q.q_id < q.q_width {
                    lemma_step_moves_layer(velocity as int, q, self.depth as int);
                }
            }
        }
        self.last_played = layer;
        layer
    }

    /// The layer at index `i`.
    pub fn layer(&self, i: usize) -> (r: &Mello)
        requires
            i < self.spec_layers().len(),
        ensures
            *r == self.spec_layers()[i as int],
    {
        &self.layers[i]
    }
}

} // verus!
