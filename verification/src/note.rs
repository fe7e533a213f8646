use vstd::prelude::*;

verus! {

/// The layer a MIDI velocity selects among `depth + 1` layers:
/// `velocity * depth / 127`, rounded down.
pub open spec fn layer_index(velocity: nat, depth: nat) -> nat {
    velocity * depth / 127
}

/// The velocity is scaled in proportion onto the layer indices and rounded
/// down: `127 * index <= velocity * depth < 127 * (index + 1)`, so the
/// softest velocity picks layer 0 and the highest the top layer `depth`.
pub proof fn lemma_layer_index_scaled(velocity: nat, depth: nat)
    ensures
        127 * layer_index(velocity, depth) <= velocity * depth,
        velocity * depth < 127 * (layer_index(velocity, depth) + 1),
        layer_index(0, depth) == 0,
        layer_index(127, depth) == depth,
{
    vstd::arithmetic::div_mod::lemma_fundamental_div_mod((velocity * depth) as int, 127);
    vstd::arithmetic::div_mod::lemma_mod_bound((velocity * depth) as int, 127);
    vstd::arithmetic::div_mod::lemma_div_multiples_vanish(depth as int, 127);
    assert(0 * depth == 0);
}

/// A note of the folder player: its layers and the index of the top one.
#[derive(Debug)]
pub struct Note<S> {
    layers: Vec<S>,
    depth: usize,
}

impl<S> Note<S> {
    #[verifier::type_invariant]
    closed spec fn inv(self) -> bool {
        self.layers@.len() == self.depth + 1
    }

    /// The layers, softest first.
    pub closed spec fn spec_layers(&self) -> Seq<S> {
        self.layers@
    }

    /// Index of the top layer.
    pub closed spec fn spec_depth(&self) -> nat {
        self.depth as nat
    }

    /// A note over the given layers (at least one).
    pub fn from_layers(layers: Vec<S>) -> (n: Self)
        requires
            layers@.len() >= 1,
        ensures
            n.spec_layers() == layers@,
            n.spec_depth() == layers@.len() - 1,
    {
        let depth = layers.len() - 1;
        Note { layers, depth }
    }

    /// Index of the top layer.
    pub fn depth(&self) -> (r: usize)
        ensures
            r == self.spec_depth(),
    {
        self.depth
    }

    /// The layer for a MIDI velocity: the velocity scaled from `0..=127`
    /// onto the layer indices, rounded down.
    pub fn get_layer(&self, velocity: u8) -> (r: &S)
        requires
            layer_index(velocity as nat, self.spec_depth()) <= self.spec_depth(),
        ensures
            *r == self.spec_layers()[layer_index(velocity as nat, self.spec_depth()) as int],
    {
        proof {
            use_type_invariant(self);
            assert((velocity as int) * (self.depth as int) <= 255 * (usize::MAX as int)) by (nonlinear_arith)
                requires
                    velocity <= 255,
                    self.depth <= usize::MAX,
            ;
            assert((velocity as int) * (self.depth as int) >= 0) by (nonlinear_arith);
        }
        let idx = ((velocity as u128) * (self.depth as u128) / 127) as usize;
        &self.layers[idx]
    }
}

impl<S: Clone> Clone for Note<S> {
    /// A note with a clone of each layer.
    fn clone(&self) -> (r: Self)
        ensures
            r.spec_depth() == self.spec_depth(),
            r.spec_layers().len() == self.spec_layers().len(),
            forall|i: int| 0 <= i < self.spec_layers().len() ==> cloned::<S>(self.spec_layers()[i], #[trigger] r.spec_layers()[i]),
    {
        proof {
            use_type_invariant(self);
        }
        Note { layers: self.layers.clone(), depth: self.depth }
    }
}

} // verus!
