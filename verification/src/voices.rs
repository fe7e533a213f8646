use vstd::prelude::*;

verus! {

/// The number of simultaneous voices.
pub const NUM_VOICES: usize = 16;

/// The largest block of frames rendered at once.
pub const MAX_BLOCK_SIZE: usize = 64;

/// A voice id for a host that gives none: the note in the low 16 bits and
/// the channel above them. Polyphonic modulation cannot reach such a voice,
/// but it plays.
pub fn compute_fallback_voice_id(note: u8, channel: u8) -> (r: i32)
    ensures
        r == note + channel * 65536,
{
    let n = note as i32;
    let c = channel as i32;
    assert((n | (c << 16)) == n + c * 65536) by (bit_vector)
        requires
            0 <= n < 256,
            0 <= c < 256,
    ;
    n | (c << 16)
}

/// Voices without host ids are told apart: different notes or channels
/// give different fallback ids.
pub proof fn lemma_fallback_ids_distinct(n1: u8, c1: u8, n2: u8, c2: u8)
    requires
        n1 != n2 || c1 != c2,
    ensures
        n1 + c1 * 65536 != n2 + c2 * 65536,
{
}

/// One sounding voice: who it is, and how far it has played its layer.
#[derive(Copy, Debug)]
pub struct Voice<P> {
    /// The id the host knows the voice by.
    pub voice_id: i32,
    /// The note's channel, in `0..16`.
    pub channel: u8,
    /// The note's key, in `0..128`.
    pub note: u8,
    /// Order of creation: each voice gets one more than the previous one.
    pub internal_voice_id: u64,
    /// Number of frames of the layer being played.
    pub sample_len: usize,
    /// Index of the next frame to play.
    pub current_frame: usize,
    /// What the caller attaches to the voice (the layer, the gain).
    pub payload: P,
}

impl<P: Copy> Clone for Voice<P> {
    /// The same voice.
    fn clone(&self) -> (r: Self)
        ensures
            r == *self,
    {
        *self
    }
}

/// A voice is over once it has played its last frame.
pub open spec fn is_finished<P>(v: Voice<P>) -> bool {
    v.current_frame == v.sample_len
}

/// A voice is over exactly when it has no frame left to play: for a
/// voice that has not run past its layer, it is finished if and only if
/// `next` would give no more frames, that is once it has played all
/// `sample_len` of them, and never while frames are left.
pub proof fn lemma_finished_when_nothing_left<P>(v: Voice<P>)
    requires
        v.current_frame <= v.sample_len,
    ensures
        is_finished(v) <==> !(v.current_frame < v.sample_len),
        v.current_frame < v.sample_len ==> !is_finished(v),
{
}

/// `a` was created before `b` (or is `b`).
pub open spec fn not_younger<P>(a: Voice<P>, b: Voice<P>) -> bool {
    a.internal_voice_id <= b.internal_voice_id
}

/// The counter that follows `id`, wrapping to 0.
pub open spec fn next_internal_id(id: u64) -> u64 {
    if id == u64::MAX {
        0
    } else {
        (id + 1) as u64
    }
}

impl<P: Copy> Voice<P> {
    /// The index of the next frame to play, if any is left; it is then
    /// counted as played.
    pub fn next(&mut self) -> (r: Option<usize>)
        ensures
            old(self).current_frame < old(self).sample_len ==> r == Some(old(self).current_frame)
                && *final(self) == (Voice { current_frame: (old(self).current_frame + 1) as usize, ..*old(self) }),
            old(self).current_frame >= old(self).sample_len ==> r is None && *final(self) == *old(self),
    {
        if self.current_frame < self.sample_len {
            let frame = self.current_frame;
            self.current_frame = self.current_frame + 1;
            Some(frame)
        } else {
            None
        }
    }
}

/// What to do with the next note event while rendering a block.
#[derive(Copy, Clone, Debug, PartialEq, Eq, Structural)]
pub enum EventStep {
    /// The event is due at the start of the block: handle it and look at the next one.
    Handle,
    /// The event falls inside the block: end the block there.
    EndBlockAt(usize),
    /// No event before the block's end: render the block.
    Render,
}

/// Decides what the next event (its timing, if there is one) means for the
/// block `block_start..block_end`.
pub fn event_step(timing: Option<usize>, block_start: usize, block_end: usize) -> (r: EventStep)
    ensures
        r == match timing {
            Some(t) => if t <= block_start {
                EventStep::Handle
            } else if t < block_end {
                EventStep::EndBlockAt(t)
            } else {
                EventStep::Render
            },
            None => EventStep::Render,
        },
        r matches EventStep::EndBlockAt(t) ==> block_start < t < block_end,
{
    match timing {
        Some(t) => if t <= block_start {
            EventStep::Handle
        } else if t < block_end {
            EventStep::EndBlockAt(t)
        } else {
            EventStep::Render
        },
        None => EventStep::Render,
    }
}

/// The first block of a buffer of `num_samples` frames.
pub fn first_block(num_samples: usize) -> (r: (usize, usize))
    ensures
        r.0 == 0,
        r.1 == if MAX_BLOCK_SIZE < num_samples { MAX_BLOCK_SIZE } else { num_samples },
        0 < num_samples ==> r.0 < r.1,
{
    (0, if MAX_BLOCK_SIZE < num_samples { MAX_BLOCK_SIZE } else { num_samples })
}

/// The block after the one that ended at `block_end`: it starts there and
/// spans at most `MAX_BLOCK_SIZE` frames, not past the buffer.
pub fn next_block(block_end: usize, num_samples: usize) -> (r: (usize, usize))
    requires
        block_end <= num_samples,
        block_end + MAX_BLOCK_SIZE <= usize::MAX,
    ensures
        r.0 == block_end,
        r.1 == if block_end + MAX_BLOCK_SIZE < num_samples { block_end + MAX_BLOCK_SIZE } else { num_samples as int },
        r.0 < num_samples ==> r.0 < r.1 <= num_samples,
{
    let end = block_end + MAX_BLOCK_SIZE;
    (block_end, if end < num_samples { end } else { num_samples })
}

/// The voices of the synth: `NUM_VOICES` slots, each free or sounding.
pub struct Voices<P> {
    voices: [Option<Voice<P>>; 16],
    next_internal_voice_id: u64,
}

impl<P: Copy> Voices<P> {
    /// The slots.
    pub closed spec fn slots(&self) -> Seq<Option<Voice<P>>> {
        self.voices@
    }

    /// The creation counter the next voice gets.
    pub closed spec fn spec_next_internal_voice_id(&self) -> u64 {
        self.next_internal_voice_id
    }

    /// All slots free; counting starts at 0.
    pub fn new() -> (r: Self)
        ensures
            r.slots().len() == NUM_VOICES,
            forall|i: int| 0 <= i < 16 ==> #[trigger] r.slots()[i] is None,
            r.spec_next_internal_voice_id() == 0,
    {
        Voices {
            voices: [
                None,
                None,
                None,
                None,
                None,
                None,
                None,
                None,
                None,
                None,
                None,
                None,
                None,
                None,
                None,
                None,
            ],
            next_internal_voice_id: 0,
        }
    }

    /// Frees all slots and restarts the counting.
    pub fn reset(&mut self)
        ensures
            final(self).slots().len() == NUM_VOICES,
            forall|i: int| 0 <= i < 16 ==> #[trigger] final(self).slots()[i] is None,
            final(self).spec_next_internal_voice_id() == 0,
    {
        let mut i: usize = 0;
        while i < NUM_VOICES
            invariant
                i <= 16,
                forall|j: int| 0 <= j < i ==> #[trigger] self.voices@[j] is None,
            decreases 16 - i,
        {
            self.voices[i] = None;
            i = i + 1;
        }
        self.next_internal_voice_id = 0;
    }

    /// Starts a voice for a note: in the first free slot, or, when all are
    /// sounding, in place of the oldest voice (the first one of least
    /// creation counter), which is returned so that its end can be reported.
    /// A voice without a host id gets `compute_fallback_voice_id`.
    /// Returns the slot and the stolen voice.
    pub fn start_voice(
        &mut self,
        voice_id: Option<i32>,
        channel: u8,
        note: u8,
        sample_len: usize,
        payload: P,
    ) -> (r: (usize, Option<Voice<P>>))
        ensures
            r.0 < NUM_VOICES,
            final(self).slots().len() == NUM_VOICES,
            final(self).slots()[r.0 as int] == Some(
                Voice {
                    voice_id: match voice_id {
                        Some(v) => v,
                        None => (note + channel * 65536) as i32,
                    },
                    channel,
                    note,
                    internal_voice_id: old(self).spec_next_internal_voice_id(),
                    sample_len,
                    current_frame: 0,
                    payload,
                },
            ),
            forall|i: int| 0 <= i < 16 && i != r.0 ==> #[trigger] final(self).slots()[i] == old(self).slots()[i],
            final(self).spec_next_internal_voice_id() == next_internal_id(old(self).spec_next_internal_voice_id()),
            r.1 == old(self).slots()[r.0 as int],
            (exists|i: int| 0 <= i < 16 && #[trigger] old(self).slots()[i] is None) ==> {
                &&& old(self).slots()[r.0 as int] is None
                &&& forall|i: int| 0 <= i < r.0 ==> #[trigger] old(self).slots()[i] is Some
            },
            (forall|i: int| 0 <= i < 16 ==> #[trigger] old(self).slots()[i] is Some) ==> {
                &&& forall|i: int|
                    0 <= i < 16 ==> not_younger(old(self).slots()[r.0 as int]->0, #[trigger] old(self).slots()[i]->0)
                &&& forall|i: int|
                    0 <= i < r.0 ==> !not_younger(#[trigger] old(self).slots()[i]->0, old(self).slots()[r.0 as int]->0)
            },
            (forall|i: int| 0 <= i < 16 ==> #[trigger] old(self).slots()[i] is Some) ==> forall|i: int|
                0 <= i < 16 ==> old(self).slots()[r.0 as int]->0.internal_voice_id <= (#[trigger] old(
                    self,
                ).slots()[i])->0.internal_voice_id,
            final(self).spec_next_internal_voice_id() == if old(self).spec_next_internal_voice_id() == u64::MAX {
                0
            } else {
                old(self).spec_next_internal_voice_id() + 1
            },
    {
        let id = match voice_id {
            Some(v) => v,
            None => compute_fallback_voice_id(note, channel),
        };
        let new_voice = Voice {
            voice_id: id,
            channel,
            note,
            internal_voice_id: self.next_internal_voice_id,
            sample_len,
            current_frame: 0,
            payload,
        };
        self.next_internal_voice_id = self.next_internal_voice_id.wrapping_add(1);
        let mut free: usize = 0;
        while free < NUM_VOICES && self.voices[free].is_some()
            invariant
                free <= 16,
                forall|i: int| 0 <= i < free ==> #[trigger] self.voices@[i] is Some,
            decreases 16 - free,
        {
            free = free + 1;
        }
        if free < NUM_VOICES {
            self.voices[free] = Some(new_voice);
            return (free, None);
        }
        let mut oldest: usize = 0;
        let mut k: usize = 1;
        while k < NUM_VOICES
            invariant
                1 <= k <= 16,
                oldest < k,
                forall|i: int| 0 <= i < 16 ==> #[trigger] self.voices@[i] is Some,
                forall|i: int|
                    0 <= i < k ==> not_younger(self.voices@[oldest as int]->0, #[trigger] self.voices@[i]->0),
                forall|i: int|
                    0 <= i < oldest ==> !not_younger(#[trigger] self.voices@[i]->0, self.voices@[oldest as int]->0),
            decreases 16 - k,
        {
            let candidate = self.voices[k].unwrap().internal_voice_id;
            let best = self.voices[oldest].unwrap().internal_voice_id;
            if candidate < best {
                oldest = k;
            }
            k = k + 1;
        }
        let stolen = self.voices[oldest];
        self.voices[oldest] = Some(new_voice);
        (oldest, stolen)
    }

    /// Frees the slots of the voices that have played all their frames and
    /// returns those voices, in slot order, so that their end can be reported.
    #[verifier::loop_isolation(false)]
    pub fn terminate_finished(&mut self) -> (r: Vec<Voice<P>>)
        ensures
            final(self).slots().len() == NUM_VOICES,
            final(self).spec_next_internal_voice_id() == old(self).spec_next_internal_voice_id(),
            forall|i: int|
                0 <= i < 16 ==> #[trigger] final(self).slots()[i] == if old(self).slots()[i] is Some
                    && is_finished(old(self).slots()[i]->0) {
                    None
                } else {
                    old(self).slots()[i]
                },
            r@ == old(self).slots().filter(|s: Option<Voice<P>>| s is Some && is_finished(s->0)).map_values(
                |s: Option<Voice<P>>| s->0,
            ),
            forall|i: int|
                0 <= i < 16 && old(self).slots()[i] is Some && old(self).slots()[i]->0.current_frame
                    == old(self).slots()[i]->0.sample_len ==> #[trigger] final(self).slots()[i] is None,
            forall|i: int|
                0 <= i < 16 && !(old(self).slots()[i] is Some && old(self).slots()[i]->0.current_frame
                    == old(self).slots()[i]->0.sample_len) ==> #[trigger] final(self).slots()[i] == old(self).slots()[i],
            forall|j: int| 0 <= j < r.len() ==> (#[trigger] r@[j]).current_frame == r@[j].sample_len,
    {
        let ghost pred = |s: Option<Voice<P>>| s is Some && is_finished(s->0);
        let ghost unwrap = |s: Option<Voice<P>>| s->0;
        let mut out: Vec<Voice<P>> = Vec::new();
        let mut i: usize = 0;
        while i < NUM_VOICES
            invariant
                i <= 16,
                self.next_internal_voice_id == old(self).next_internal_voice_id,
                forall|j: int| i <= j < 16 ==> #[trigger] self.voices@[j] == old(self).voices@[j],
                forall|j: int|
                    0 <= j < i ==> #[trigger] self.voices@[j] == if old(self).voices@[j] is Some && is_finished(
                        old(self).voices@[j]->0,
                    ) {
                        None
                    } else {
                        old(self).voices@[j]
                    },
                out@ == old(self).voices@.take(i as int).filter(pred).map_values(unwrap),
                forall|j: int| 0 <= j < out.len() ==> (#[trigger] out@[j]).current_frame == out@[j].sample_len,
            decreases 16 - i,
        {
            let ghost before = out@;
            proof {
                assert(old(self).voices@.take(i + 1) =~= old(self).voices@.take(i as int).push(old(self).voices@[i as int]));
                old(self).voices@.take(i as int).lemma_filter_push(old(self).voices@[i as int], pred);
                old(self).voices@.take(i as int).filter(pred).lemma_push_map_commute(unwrap, old(self).voices@[i as int]);
            }
            let ghost x = old(self).voices@[i as int];
            assert(self.voices@[i as int] == x);
            if let Some(v) = self.voices[i] {
                assert(x == Some(v));
                if v.current_frame == v.sample_len {
                    out.push(v);
                    self.voices[i] = None;
                    assert(pred(x));
                    assert(out@ =~= old(self).voices@.take(i as int).filter(pred).push(x).map_values(unwrap));
                } else {
                    assert(!pred(x));
                }
            } else {
                assert(!pred(x));
            }
            i = i + 1;
        }
        proof {
            assert(old(self).voices@.take(16) =~= old(self).voices@);
        }
        out
    }

    /// Plays one frame of the voice in a slot: the index of the frame to
    /// play, if the slot sounds and frames are left.
    pub fn next_frame(&mut self, slot: usize) -> (r: Option<usize>)
        requires
            slot < NUM_VOICES,
        ensures
            final(self).slots().len() == NUM_VOICES,
            final(self).spec_next_internal_voice_id() == old(self).spec_next_internal_voice_id(),
            forall|i: int| 0 <= i < 16 && i != slot ==> #[trigger] final(self).slots()[i] == old(self).slots()[i],
            match old(self).slots()[slot as int] {
                None => r is None && final(self).slots()[slot as int] is None,
                Some(v) => if v.current_frame < v.sample_len {
                    &&& r == Some(v.current_frame)
                    &&& final(self).slots()[slot as int] == Some(
                        Voice { current_frame: (v.current_frame + 1) as usize, ..v },
                    )
                } else {
                    r is None && final(self).slots()[slot as int] == Some(v)
                },
            },
    {
        match self.voices[slot] {
            None => None,
            Some(v) => {
                let mut v = v;
                let r = v.next();
                self.voices[slot] = Some(v);
                r
            },
        }
    }

    /// The voice in a slot, if it sounds.
    pub fn voice(&self, slot: usize) -> (r: Option<Voice<P>>)
        requires
            slot < NUM_VOICES,
        ensures
            r == self.slots()[slot as int],
    {
        self.voices[slot]
    }
}

} // verus!
