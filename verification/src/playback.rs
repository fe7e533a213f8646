use vstd::prelude::*;
use vstd::std_specs::ops::AddSpec;

verus! {

/// The output buffer after playing: the first pending frames that fit,
/// then silence.
pub open spec fn played<T>(output_len: nat, pending: Seq<T>, silence: T) -> Seq<T> {
    Seq::new(output_len, |i: int| if i < pending.len() { pending[i] } else { silence })
}

/// Fills an output buffer from the pending frames: as many frames as fit
/// are copied and removed from the pending ones, and the rest of the buffer
/// is filled with `silence`.
pub fn play_data<T: Copy>(output: &mut [T], pending: &mut Vec<T>, silence: T)
    ensures
        final(output)@ == played(old(output)@.len(), old(pending)@, silence),
        final(pending)@ == old(pending)@.skip(
            if old(output)@.len() < old(pending)@.len() { old(output)@.len() as int } else { old(pending)@.len() as int },
        ),
        old(pending)@ == final(output)@.take(old(pending)@.len() - final(pending)@.len()) + final(pending)@,
{
    let n = output.len();
    let to_copy = if n < pending.len() { n } else { pending.len() };
    let mut i: usize = 0;
    while i < n
        invariant
            n == output@.len(),
            n == old(output)@.len(),
            to_copy == if n < pending@.len() { n as nat } else { pending@.len() },
            pending@ == old(pending)@,
            i <= n,
            forall|j: int| 0 <= j < i ==> output@[j] == played(n as nat, pending@, silence)[j],
        decreases n - i,
    {
        if i < to_copy {
            output[i] = pending[i];
        } else {
            output[i] = silence;
        }
        i = i + 1;
    }
    let mut rest: Vec<T> = Vec::new();
    let mut j: usize = to_copy;
    while j < pending.len()
        invariant
            to_copy <= j <= pending@.len(),
            rest@ == pending@.subrange(to_copy as int, j as int),
        decreases pending@.len() - j,
    {
        rest.push(pending[j]);
        proof {
            assert(pending@.subrange(to_copy as int, j + 1) =~= pending@.subrange(to_copy as int, j as int).push(pending@[j as int]));
        }
        j = j + 1;
    }
    proof {
        assert(output@ =~= played(n as nat, pending@, silence));
        assert(rest@ =~= pending@.skip(to_copy as int));
        assert(pending@ =~= output@.take(to_copy as int) + rest@);
    }
    *pending = rest;
}

/// The sum of two frame sequences, the shorter one padded: frames where
/// both have one are added, the longer one's other frames are taken as
/// they are (added to `T`'s default value where only the second has one).
pub fn sum_vectors_with_padding<T>(vec1: &[T], vec2: &[T]) -> (result: Vec<T>)
    where
        T: core::ops::Add<Output = T> + Default + Copy,
    requires
        forall|i: int| 0 <= i < vec1@.len() && i < vec2@.len() ==> #[trigger] vec1@[i].add_req(vec2@[i]),
        forall|d: T, i: int|
            call_ensures(T::default, (), d) && vec1@.len() <= i < vec2@.len() ==> #[trigger] d.add_req(vec2@[i]),
    ensures
        result@.len() == if vec1@.len() < vec2@.len() { vec2@.len() } else { vec1@.len() },
        forall|i: int| vec2@.len() <= i < vec1@.len() ==> #[trigger] result@[i] == vec1@[i],
        T::obeys_add_spec() ==> forall|i: int|
            0 <= i < vec1@.len() && i < vec2@.len() ==> #[trigger] result@[i] == vec1@[i].add_spec(vec2@[i]),
        T::obeys_add_spec() ==> exists|d: T|
            call_ensures(T::default, (), d) && forall|i: int|
                vec1@.len() <= i < vec2@.len() ==> #[trigger] result@[i] == d.add_spec(vec2@[i]),
{
    let zero = T::default();
    assert(call_ensures(T::default, (), zero));
    let max_len = if vec1.len() < vec2.len() { vec2.len() } else { vec1.len() };
    let mut result: Vec<T> = Vec::new();
    let mut i: usize = 0;
    while i < max_len
        invariant
            max_len == if vec1@.len() < vec2@.len() { vec2@.len() } else { vec1@.len() },
            i <= max_len,
            result@.len() == i,
            call_ensures(T::default, (), zero),
            forall|j: int| 0 <= j < vec1@.len() && j < vec2@.len() ==> #[trigger] vec1@[j].add_req(vec2@[j]),
            forall|d: T, j: int|
                call_ensures(T::default, (), d) && vec1@.len() <= j < vec2@.len() ==> #[trigger] d.add_req(vec2@[j]),
            forall|j: int| 0 <= j < i && vec2@.len() <= j ==> #[trigger] result@[j] == vec1@[j],
            T::obeys_add_spec() ==> forall|j: int|
                0 <= j < i && j < vec1@.len() && j < vec2@.len() ==> #[trigger] result@[j] == vec1@[j].add_spec(vec2@[j]),
            T::obeys_add_spec() ==> forall|j: int|
                0 <= j < i && vec1@.len() <= j && j < vec2@.len() ==> #[trigger] result@[j] == zero.add_spec(vec2@[j]),
        decreases max_len - i,
    {
        let base = if i < vec1.len() { vec1[i] } else { zero };
        let frame = if i < vec2.len() { base + vec2[i] } else { base };
        result.push(frame);
        i = i + 1;
    }
    result
}

} // verus!
