use vstd::prelude::*;
use vstd::utf8::encode_utf8;

verus! {

broadcast use {vstd::seq_lib::group_seq_properties, vstd::seq_lib::to_multiset_insert};

/// One note: its velocity layers, softest first.
pub struct Note<S>(Vec<S>);

impl<S> View for Note<S> {
    type V = Seq<S>;

    /// The layers, in order.
    closed spec fn view(&self) -> Seq<S> {
        self.0@
    }
}

impl<S> Note<S> {
    /// A note made of the given layers, in the given order.
    pub fn from_layers(layers: Vec<S>) -> (n: Self)
        ensures
            n@ == layers@,
    {
        Note(layers)
    }

    /// Number of layers.
    pub fn depth(&self) -> (r: usize)
        ensures
            r == self@.len(),
    {
        self.0.len()
    }

    /// The layer at index `idx`.
    pub fn get_layer(&self, idx: usize) -> (r: &S)
        requires
            idx < self@.len(),
        ensures
            *r == self@[idx as int],
    {
        &self.0[idx]
    }
}

/// Whether a file name ends with `.wav`.
pub open spec fn is_wav(name: Seq<char>) -> bool {
    name.len() >= 4 && name.subrange(name.len() - 4, name.len() as int) =~= seq!['.', 'w', 'a', 'v']
}

/// The extension of the files that hold layers: `.wav`.
pub open spec fn dot_wav() -> Seq<char> {
    seq!['.', 'w', 'a', 'v']
}

/// Lexicographic order on byte strings: a proper prefix comes first.
pub open spec fn bytes_le(a: Seq<u8>, b: Seq<u8>) -> bool
    decreases a.len(),
{
    if a.len() == 0 {
        true
    } else if b.len() == 0 {
        false
    } else if a[0] != b[0] {
        a[0] < b[0]
    } else {
        bytes_le(a.drop_first(), b.drop_first())
    }
}

/// Order of paths: by their UTF-8 bytes, which for the entries of one
/// directory is the order of `std::path::Path`.
pub open spec fn path_le(a: Seq<char>, b: Seq<char>) -> bool {
    bytes_le(encode_utf8(a), encode_utf8(b))
}

/// The file names among `entries` that end with `.wav`, in their order.
pub open spec fn wav_entries(entries: Seq<Seq<char>>) -> Seq<Seq<char>> {
    entries.filter(|n: Seq<char>| is_wav(n))
}

/// The text of each string.
pub open spec fn texts(v: Seq<String>) -> Seq<Seq<char>> {
    v.map_values(|s: String| s@)
}

/// Byte strings that agree on their first `i` bytes are ordered by what
/// follows: the one that ends there comes first, and otherwise the first
/// byte where they differ decides.
pub proof fn lemma_bytes_le_first_difference(a: Seq<u8>, b: Seq<u8>, i: int)
    requires
        0 <= i <= a.len(),
        i <= b.len(),
        a.take(i) == b.take(i),
    ensures
        i == a.len() ==> bytes_le(a, b),
        i < a.len() && i == b.len() ==> !bytes_le(a, b),
        i < a.len() && i < b.len() && a[i] != b[i] ==> (bytes_le(a, b) <==> a[i] < b[i]),
    decreases i,
{
    if i > 0 {
        assert(a[0] == a.take(i)[0]);
        assert(b[0] == b.take(i)[0]);
        assert(a.drop_first().take(i - 1) =~= a.take(i).drop_first());
        assert(b.drop_first().take(i - 1) =~= b.take(i).drop_first());
        lemma_bytes_le_first_difference(a.drop_first(), b.drop_first(), i - 1);
    }
}

/// Either byte string comes first.
pub proof fn lemma_bytes_le_total(a: Seq<u8>, b: Seq<u8>)
    ensures
        bytes_le(a, b) || bytes_le(b, a),
    decreases a.len(),
{
    if a.len() > 0 && b.len() > 0 && a[0] == b[0] {
        lemma_bytes_le_total(a.drop_first(), b.drop_first());
    }
}

/// The byte order is transitive.
pub proof fn lemma_bytes_le_transitive(a: Seq<u8>, b: Seq<u8>, c: Seq<u8>)
    requires
        bytes_le(a, b),
        bytes_le(b, c),
    ensures
        bytes_le(a, c),
    decreases a.len(),
{
    if a.len() > 0 && b.len() > 0 && c.len() > 0 && a[0] == b[0] && b[0] == c[0] {
        lemma_bytes_le_transitive(a.drop_first(), b.drop_first(), c.drop_first());
    }
}

/// Compares two byte strings in lexicographic order.
fn bytes_le_exec(a: &[u8], b: &[u8]) -> (r: bool)
    ensures
        r == bytes_le(a@, b@),
{
    let mut i: usize = 0;
    while i < a.len() && i < b.len()
        invariant
            i <= a@.len(),
            i <= b@.len(),
            bytes_le(a@, b@) == bytes_le(a@.skip(i as int), b@.skip(i as int)),
        decreases a@.len() - i,
    {
        assert(a@.skip(i as int)[0] == a@[i as int]);
        assert(b@.skip(i as int)[0] == b@[i as int]);
        if a[i] < b[i] {
            return true;
        }
        if a[i] > b[i] {
            return false;
        }
        assert(a@.skip(i as int).drop_first() =~= a@.skip(i + 1));
        assert(b@.skip(i as int).drop_first() =~= b@.skip(i + 1));
        i = i + 1;
    }
    a.len() <= b.len()
}

/// A name is a layer's exactly when it ends with `.wav`, whatever comes
/// before: any text followed by `.wav` is one (dots, slashes and all), and
/// every such name is its text before the last four characters followed
/// by `.wav`.
pub proof fn lemma_wav_suffix(s: Seq<char>, name: Seq<char>)
    ensures
        is_wav(s + seq!['.', 'w', 'a', 'v']),
        is_wav(name) ==> name =~= name.take(name.len() - 4) + seq!['.', 'w', 'a', 'v'],
        is_wav(name) <==> (name.len() >= 4 && name[name.len() - 4] == '.' && name[name.len() - 3] == 'w'
            && name[name.len() - 2] == 'a' && name[name.len() - 1] == 'v'),
{
    let t = s + seq!['.', 'w', 'a', 'v'];
    assert(t.subrange(t.len() - 4, t.len() as int) =~= seq!['.', 'w', 'a', 'v']);
    if name.len() >= 4 {
        let tail = name.subrange(name.len() - 4, name.len() as int);
        if name[name.len() - 4] == '.' && name[name.len() - 3] == 'w' && name[name.len() - 2] == 'a'
            && name[name.len() - 1] == 'v' {
            assert(tail =~= seq!['.', 'w', 'a', 'v']);
        }
        if is_wav(name) {
            assert(tail[0] == '.' && tail[1] == 'w' && tail[2] == 'a' && tail[3] == 'v');
            assert(name =~= name.take(name.len() - 4) + tail);
        }
    }
}

/// Whether a file name ends with `.wav`.
pub fn is_wav_name(name: &str) -> (r: bool)
    ensures
        r == is_wav(name@),
        r == (name@.len() >= 4 && name@[name@.len() - 4] == '.' && name@[name@.len() - 3] == 'w'
            && name@[name@.len() - 2] == 'a' && name@[name@.len() - 1] == 'v'),
{
    let n = name.unicode_len();
    if n < 4 {
        return false;
    }
    let a = name.get_char(n - 4);
    let b = name.get_char(n - 3);
    let c = name.get_char(n - 2);
    let d = name.get_char(n - 1);
    let r = a == '.' && b == 'w' && c == 'a' && d == 'v';
    proof {
        let tail = name@.subrange(n - 4, n as int);
        if r {
            assert(tail =~= seq!['.', 'w', 'a', 'v']);
        } else {
            assert(tail[0] == a && tail[1] == b && tail[2] == c && tail[3] == d);
            assert(seq!['.', 'w', 'a', 'v'][0] == '.');
            assert(seq!['.', 'w', 'a', 'v'][1] == 'w');
            assert(seq!['.', 'w', 'a', 'v'][2] == 'a');
            assert(seq!['.', 'w', 'a', 'v'][3] == 'v');
        }
    }
    proof {
        lemma_wav_suffix(Seq::empty(), name@);
    }
    r
}

/// The audio files of a note's folder, in the order its layers are loaded:
/// the entries that end with `.wav`, sorted by path.
pub fn layer_paths(entries: &Vec<String>) -> (r: Vec<String>)
    ensures
        texts(r@).to_multiset() == wav_entries(texts(entries@)).to_multiset(),
        forall|i: int, j: int| 0 <= i < j < r@.len() ==> path_le(#[trigger] r@[i]@, #[trigger] r@[j]@),
        forall|s: Seq<char>| #[trigger] texts(entries@).contains(s + dot_wav()) ==> texts(r@).contains(s + dot_wav()),
        forall|i: int|
            0 <= i < r@.len() ==> (#[trigger] r@[i])@.len() >= 4 && r@[i]@[r@[i]@.len() - 4] == '.'
                && r@[i]@[r@[i]@.len() - 3] == 'w' && r@[i]@[r@[i]@.len() - 2] == 'a' && r@[i]@[r@[i]@.len() - 1]
                == 'v',
{
    let mut result: Vec<String> = Vec::new();
    let mut i: usize = 0;
    while i < entries.len()
        invariant
            i <= entries@.len(),
            texts(result@).to_multiset() == wav_entries(texts(entries@.take(i as int))).to_multiset(),
            forall|a: int, b: int| 0 <= a < b < result@.len() ==> path_le(#[trigger] result@[a]@, #[trigger] result@[b]@),
        decreases entries@.len() - i,
    {
        let name = &entries[i];
        proof {
            assert(entries@.take(i + 1) =~= entries@.take(i as int).push(entries@[i as int]));
            assert(texts(entries@.take(i + 1)) =~= texts(entries@.take(i as int)).push(entries@[i as int]@));
            texts(entries@.take(i as int)).lemma_filter_push(entries@[i as int]@, |n: Seq<char>| is_wav(n));
        }
        if is_wav_name(name.as_str()) {
            let key = name.as_str().as_bytes();
            let mut j: usize = 0;
            while j < result.len() && bytes_le_exec(result[j].as_str().as_bytes(), key)
                invariant
                    j <= result@.len(),
                    key@ == encode_utf8(name@),
                    forall|k: int| 0 <= k < j ==> path_le(#[trigger] result@[k]@, name@),
                decreases result@.len() - j,
            {
                j = j + 1;
            }
            let ghost old_result = result@;
            proof {
                if j < result@.len() {
                    lemma_bytes_le_total(encode_utf8(result@[j as int]@), key@);
                }
                assert forall|a: int, b: int| 0 <= a < b < old_result.len() + 1 implies
                    path_le(#[trigger] old_result.insert(j as int, *name)[a]@, #[trigger] old_result.insert(j as int, *name)[b]@) by {
                    let s = old_result.insert(j as int, *name);
                    if b == j {
                    } else if a == j {
                        if b - 1 > j {
                            lemma_bytes_le_transitive(encode_utf8(name@), encode_utf8(old_result[j as int]@), encode_utf8(old_result[b - 1]@));
                        }
                    } else if a < j && b > j {
                        if b - 1 > j {
                            lemma_bytes_le_transitive(encode_utf8(name@), encode_utf8(old_result[j as int]@), encode_utf8(old_result[b - 1]@));
                        }
                        lemma_bytes_le_transitive(encode_utf8(old_result[a]@), encode_utf8(name@), encode_utf8(old_result[b - 1]@));
                    }
                }
                assert(texts(old_result.insert(j as int, *name)) =~= texts(old_result).insert(j as int, name@));
            }
            result.insert(j, name.clone());
        }
        i = i + 1;
    }
    proof {
        assert(entries@.take(entries@.len() as int) =~= entries@);
        let pred = |n: Seq<char>| is_wav(n);
        let all = texts(entries@);
        let got = texts(result@);
        let f = wav_entries(all);
        assert(f == all.filter(pred));
        assert(got.to_multiset() == f.to_multiset());
        got.to_multiset_ensures();
        f.to_multiset_ensures();
        assert forall|s: Seq<char>| #[trigger] all.contains(s + dot_wav()) implies got.contains(s + dot_wav()) by {
            let w = s + dot_wav();
            lemma_wav_suffix(s, w);
            let idx = choose|idx: int| 0 <= idx < all.len() && all[idx] == w;
            all.lemma_filter_contains(pred, idx);
            assert(f.contains(w));
            assert(f.to_multiset().count(w) > 0);
        }
        assert forall|i: int| 0 <= i < result@.len() implies is_wav(#[trigger] result@[i]@) by {
            let w = result@[i]@;
            assert(got[i] == w);
            assert(got.contains(w));
            assert(f.to_multiset().count(w) > 0);
            assert(f.contains(w));
            let k = choose|k: int| 0 <= k < f.len() && f[k] == w;
            all.lemma_filter_pred(pred, k);
        }
        assert forall|i: int| 0 <= i < result@.len() implies (#[trigger] result@[i])@.len() >= 4 && result@[i]@[
            result@[i]@.len() - 4] == '.' && result@[i]@[result@[i]@.len() - 3] == 'w' && result@[i]@[result@[i]@.len()
            - 2] == 'a' && result@[i]@[result@[i]@.len() - 1] == 'v' by {
            assert(is_wav(result@[i]@));
            lemma_wav_suffix(Seq::empty(), result@[i]@);
        }
    }
    result
}

} // verus!
