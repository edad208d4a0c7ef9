//! Lists of names and paths: their order, and which scheme a path belongs to.
use vstd::prelude::*;
use vstd::utf8::*;

verus! {

/// The texts that a list of strings holds.
pub open spec fn texts(list: Seq<String>) -> Seq<Seq<char>> {
    list.map_values(|s: String| s@)
}

/// `i` is the first position at which `a` and `b` differ, and `a` is the smaller one there:
/// it has ended, or holds the smaller byte.
pub open spec fn smaller_at(a: Seq<u8>, b: Seq<u8>, i: int) -> bool {
    &&& 0 <= i < b.len()
    &&& i <= a.len()
    &&& forall|j: int| 0 <= j < i ==> a[j] == b[j]
    &&& i == a.len() || a[i] < b[i]
}

/// Lexicographic order of byte strings.
pub open spec fn bytes_before(a: Seq<u8>, b: Seq<u8>) -> bool {
    exists|i: int| smaller_at(a, b, i)
}

/// The order of texts: lexicographic by the bytes of their UTF-8 encoding.
pub open spec fn before(a: Seq<char>, b: Seq<char>) -> bool {
    bytes_before(encode_utf8(a), encode_utf8(b))
}

/// A list in ascending order in which no text occurs twice.
pub open spec fn is_ordered_set(list: Seq<Seq<char>>) -> bool {
    forall|i: int, j: int| 0 <= i < j < list.len() ==> before(#[trigger] list[i], #[trigger] list[j])
}

/// `path` lies in `scheme`: it begins with the scheme's name and a colon.
pub open spec fn in_scheme(path: Seq<char>, scheme: Seq<char>) -> bool {
    scheme.push(':').is_prefix_of(path)
}

/// `path` lies in one of `schemes`.
pub open spec fn in_some_scheme(path: Seq<char>, schemes: Seq<Seq<char>>) -> bool {
    exists|i: int| 0 <= i < schemes.len() && in_scheme(path, #[trigger] schemes[i])
}

/// Two texts with one encoding are one text.
pub proof fn encoding_is_injective(a: Seq<char>, b: Seq<char>)
    requires
        encode_utf8(a) == encode_utf8(b),
    ensures
        a == b,
{
    encode_utf8_decode_utf8(a);
    encode_utf8_decode_utf8(b);
}

/// No text comes before itself.
pub proof fn before_is_irreflexive(a: Seq<char>)
    ensures
        !before(a, a),
{
}

/// Of two texts that differ, one comes before the other.
pub proof fn before_is_total(a: Seq<char>, b: Seq<char>)
    ensures
        a == b || before(a, b) || before(b, a),
{
    let x = encode_utf8(a);
    let y = encode_utf8(b);
    lemma_bytes_total(x, y, 0);
    if x == y {
        encoding_is_injective(a, b);
    }
}

proof fn lemma_bytes_total(x: Seq<u8>, y: Seq<u8>, i: int)
    requires
        0 <= i <= x.len(),
        i <= y.len(),
        forall|j: int| 0 <= j < i ==> x[j] == y[j],
    ensures
        x == y || bytes_before(x, y) || bytes_before(y, x),
    decreases x.len() - i,
{
    if i == x.len() || i == y.len() {
        if x.len() == y.len() {
            assert(x =~= y);
        } else if i == x.len() {
            assert(smaller_at(x, y, i));
        } else {
            assert(smaller_at(y, x, i));
        }
    } else if x[i] < y[i] {
        assert(smaller_at(x, y, i));
    } else if y[i] < x[i] {
        assert(smaller_at(y, x, i));
    } else {
        lemma_bytes_total(x, y, i + 1);
    }
}

/// The order of texts is transitive.
pub proof fn before_is_transitive(a: Seq<char>, b: Seq<char>, c: Seq<char>)
    requires
        before(a, b),
        before(b, c),
    ensures
        before(a, c),
{
    let x = encode_utf8(a);
    let y = encode_utf8(b);
    let z = encode_utf8(c);
    let i = choose|i: int| smaller_at(x, y, i);
    let j = choose|j: int| smaller_at(y, z, j);
    assert(smaller_at(x, z, if i < j { i } else { j }));
}

/// The encoding of two texts in a row is their encodings in a row.
pub proof fn encoding_of_concatenation(a: Seq<char>, b: Seq<char>)
    ensures
        encode_utf8(a + b) == encode_utf8(a) + encode_utf8(b),
    decreases a.len(),
{
    if a.len() == 0 {
        assert(a + b =~= b);
        assert(encode_utf8(a) + encode_utf8(b) =~= encode_utf8(b));
    } else {
        encoding_of_concatenation(a.drop_first(), b);
        assert((a + b).drop_first() =~= a.drop_first() + b);
        assert(encode_utf8(a + b) =~= encode_utf8(a) + encode_utf8(b));
    }
}

/// One text is a prefix of another just when its encoding is a prefix of the other's.
pub proof fn prefix_by_encoding(a: Seq<char>, b: Seq<char>)
    ensures
        a.is_prefix_of(b) <==> encode_utf8(a).is_prefix_of(encode_utf8(b)),
    decreases a.len(),
{
    if a.is_prefix_of(b) {
        let rest = b.skip(a.len() as int);
        assert(b =~= a + rest);
        encoding_of_concatenation(a, rest);
        assert(encode_utf8(a) =~= encode_utf8(b).subrange(0, encode_utf8(a).len() as int));
    }
    if encode_utf8(a).is_prefix_of(encode_utf8(b)) && a.len() > 0 {
        let x = encode_utf8(a);
        let y = encode_utf8(b);
        encode_utf8_first_scalar(a);
        assert(x.len() > 0);
        assert(b.len() > 0);
        encode_utf8_first_scalar(b);
        assert(forall|k: int| 0 <= k < x.len() ==> x[k] == y[k]) by {
            assert forall|k: int| 0 <= k < x.len() implies x[k] == y[k] by {
                assert(x[k] == y.subrange(0, x.len() as int)[k]);
            }
        }
        assert(a[0] as u32 == b[0] as u32);
        char_u32_cast(a[0], a[0] as u32);
        char_u32_cast(b[0], b[0] as u32);
        assert(a[0] == b[0]);
        let w = encode_scalar(a[0] as u32);
        let x1 = encode_utf8(a.drop_first());
        let y1 = encode_utf8(b.drop_first());
        assert(x == w + x1);
        assert(y == w + y1);
        assert(x1 =~= y1.subrange(0, x1.len() as int)) by {
            assert forall|k: int| 0 <= k < x1.len() implies x1[k] == y1[k] by {
                assert(x1[k] == x[w.len() + k]);
                assert(y1[k] == y[w.len() + k]);
            }
        }
        prefix_by_encoding(a.drop_first(), b.drop_first());
        assert(a =~= b.subrange(0, a.len() as int)) by {
            assert forall|k: int| 0 <= k < a.len() implies a[k] == b[k] by {
                if k > 0 {
                    assert(a[k] == a.drop_first()[k - 1]);
                    assert(a.drop_first()[k - 1] == b.drop_first().subrange(
                        0,
                        a.len() - 1,
                    )[k - 1]);
                }
            }
        }
    }
    if a.len() == 0 {
        assert(a =~= b.subrange(0, 0));
    }
}

/// Whether `a` comes before `b`.
pub fn precedes(a: &str, b: &str) -> (r: bool)
    ensures
        r == before(a@, b@),
{
    let x: &[u8] = a.as_bytes();
    let y: &[u8] = b.as_bytes();
    let mut i: usize = 0;
    while i < x.len() && i < y.len() && x[i] == y[i]
        invariant
            i <= x@.len(),
            i <= y@.len(),
            forall|j: int| 0 <= j < i ==> x@[j] == y@[j],
        decreases x@.len() - i,
    {
        i = i + 1;
    }
    let r: bool = i < y.len() && (i == x.len() || x[i] < y[i]);
    proof {
        if r {
            assert(smaller_at(x@, y@, i as int));
        } else if bytes_before(x@, y@) {
            let k = choose|k: int| smaller_at(x@, y@, k);
            assert(k == i);
        }
    }
    r
}

/// Whether `path` lies in `scheme`.
pub fn lies_in_scheme(path: &str, scheme: &str) -> (r: bool)
    ensures
        r == in_scheme(path@, scheme@),
{
    let p: &[u8] = path.as_bytes();
    let s: &[u8] = scheme.as_bytes();
    proof {
        prefix_by_encoding(scheme@.push(':'), path@);
        assert(scheme@.push(':') =~= scheme@ + seq![':']);
        encoding_of_concatenation(scheme@, seq![':']);
        lemma_colon();
        assert(encode_utf8(scheme@.push(':')) =~= s@.push(58u8));
    }
    if p.len() <= s.len() {
        return false;
    }
    let mut i: usize = 0;
    while i < s.len()
        invariant
            i <= s@.len() < p@.len(),
            forall|j: int| 0 <= j < i ==> s@[j] == p@[j],
            in_scheme(path@, scheme@) == s@.push(58u8).is_prefix_of(p@),
        decreases s@.len() - i,
    {
        if s[i] != p[i] {
            assert(s@.push(58u8)[i as int] == s@[i as int]);
            assert(p@.subrange(0, (s@.len() + 1) as int)[i as int] == p@[i as int]);
            return false;
        }
        i = i + 1;
    }
    let r: bool = p[s.len()] == 58u8;
    proof {
        if r {
            assert(s@.push(58u8) =~= p@.subrange(0, (s@.len() + 1) as int));
        } else {
            assert(s@.push(58u8)[s@.len() as int] == 58u8);
            assert(p@.subrange(0, (s@.len() + 1) as int)[s@.len() as int] == p@[s@.len() as int]);
        }
    }
    r
}

proof fn lemma_colon()
    ensures
        encode_utf8(seq![':']) == seq![58u8],
{
    let c = seq![':'];
    assert(c.drop_first() =~= Seq::<char>::empty());
    assert(encode_utf8(c.drop_first()) =~= Seq::<u8>::empty());
    assert(':' as u32 == 58u32);
    assert(leading_byte_width_1(58u32) == 58u8) by (bit_vector);
    assert(encode_utf8(c) =~= seq![58u8]);
}

/// Whether `list` holds `name`.
pub fn holds(list: &Vec<String>, name: &String) -> (r: bool)
    ensures
        r == texts(list@).contains(name@),
{
    let mut i: usize = 0;
    while i < list.len()
        invariant
            i <= list@.len(),
            forall|j: int| 0 <= j < i ==> texts(list@)[j] != name@,
        decreases list@.len() - i,
    {
        if list[i] == *name {
            assert(texts(list@)[i as int] == name@);
            return true;
        }
        i = i + 1;
    }
    false
}

/// Whether `path` lies in one of `schemes`.
pub fn lies_in_some_scheme(path: &String, schemes: &Vec<String>) -> (r: bool)
    ensures
        r == in_some_scheme(path@, texts(schemes@)),
{
    let mut i: usize = 0;
    while i < schemes.len()
        invariant
            i <= schemes@.len(),
            forall|j: int| 0 <= j < i ==> !in_scheme(path@, #[trigger] texts(schemes@)[j]),
        decreases schemes@.len() - i,
    {
        if lies_in_scheme(path.as_str(), schemes[i].as_str()) {
            assert(in_scheme(path@, texts(schemes@)[i as int]));
            return true;
        }
        i = i + 1;
    }
    false
}

} // verus!
