//! What holds of names, paths and lists of them.
use vstd::prelude::*;
use vstd::utf8::encode_utf8;

use crate::lists::{select_in_schemes, select_known, sort_dedup};
use crate::text::{before, bytes_before, in_scheme, in_some_scheme, smaller_at, texts};
use crate::text::{holds, lies_in_scheme, lies_in_some_scheme, precedes};

verus! {

/// `list` holds the text `t`.
pub open spec fn names(list: Seq<String>, t: Seq<char>) -> bool {
    exists|i: int| 0 <= i < list.len() && (#[trigger] list[i])@ == t
}

/// `view` holds the texts of `list`, item by item.
pub open spec fn same_texts(view: Seq<Seq<char>>, list: Seq<String>) -> bool {
    &&& view.len() == list.len()
    &&& forall|i: int| 0 <= i < list.len() ==> view[i] == (#[trigger] list[i])@
}

/// `a` is a proper beginning of `b`, or holds the smaller byte where the two first differ.
pub open spec fn less(a: Seq<u8>, b: Seq<u8>) -> bool {
    exists|p: int|
        0 <= p <= a.len() && p < b.len() && #[trigger] a.take(p) == b.take(p) && (p == a.len()
            || a[p] < b[p])
}

/// Each text in `list` is greater, byte by byte, than all that come before it.
pub open spec fn ascends(list: Seq<String>) -> bool {
    forall|i: int, j: int|
        0 <= i < j < list.len() ==> less(
            encode_utf8((#[trigger] list[i])@),
            encode_utf8((#[trigger] list[j])@),
        )
}

/// `t` is the name of one of `schemes`, a colon, and anything.
pub open spec fn lies_under(t: Seq<char>, schemes: Seq<String>) -> bool {
    exists|s: Seq<char>, rest: Seq<char>|
        names(schemes, s) && t == #[trigger] (s + seq![':'] + rest)
}

pub(crate) proof fn lemma_names(list: Seq<String>, t: Seq<char>)
    ensures
        texts(list).contains(t) <==> names(list, t),
{
    if texts(list).contains(t) {
        let i = choose|i: int| 0 <= i < texts(list).len() && texts(list)[i] == t;
        assert(list[i]@ == t);
    }
    if names(list, t) {
        let i = choose|i: int| 0 <= i < list.len() && (#[trigger] list[i])@ == t;
        assert(texts(list)[i] == t);
    }
}

pub(crate) proof fn lemma_less(a: Seq<u8>, b: Seq<u8>)
    ensures
        bytes_before(a, b) <==> less(a, b),
{
    if bytes_before(a, b) {
        let p = choose|p: int| smaller_at(a, b, p);
        assert(a.take(p) =~= b.take(p));
    }
    if less(a, b) {
        let p = choose|p: int|
            0 <= p <= a.len() && p < b.len() && #[trigger] a.take(p) == b.take(p) && (p == a.len()
                || a[p] < b[p]);
        assert forall|j: int| 0 <= j < p implies a[j] == b[j] by {
            assert(a.take(p)[j] == b.take(p)[j]);
        }
        assert(smaller_at(a, b, p));
    }
}

pub(crate) proof fn lemma_ascends(list: Seq<String>)
    requires
        crate::text::is_ordered_set(texts(list)),
    ensures
        ascends(list),
{
    assert forall|i: int, j: int| 0 <= i < j < list.len() implies less(
        encode_utf8((#[trigger] list[i])@),
        encode_utf8((#[trigger] list[j])@),
    ) by {
        assert(before(texts(list)[i], texts(list)[j]));
        lemma_less(encode_utf8(list[i]@), encode_utf8(list[j]@));
    }
}

pub(crate) proof fn lemma_in_scheme(path: Seq<char>, scheme: Seq<char>)
    ensures
        in_scheme(path, scheme) <==> exists|rest: Seq<char>|
            path == #[trigger] (scheme + seq![':'] + rest),
{
    if in_scheme(path, scheme) {
        let rest = path.skip((scheme.len() + 1) as int);
        assert(scheme.push(':') =~= path.subrange(0, (scheme.len() + 1) as int));
        assert(path =~= path.subrange(0, (scheme.len() + 1) as int) + rest);
        assert(scheme.push(':') =~= scheme + seq![':']);
        assert(path == scheme + seq![':'] + rest);
    }
    if exists|rest: Seq<char>| path == #[trigger] (scheme + seq![':'] + rest) {
        assert(scheme.push(':') =~= path.subrange(0, (scheme.len() + 1) as int));
    }
}

pub(crate) proof fn lemma_lies_under(t: Seq<char>, schemes: Seq<String>)
    ensures
        in_some_scheme(t, texts(schemes)) <==> lies_under(t, schemes),
{
    if in_some_scheme(t, texts(schemes)) {
        let i = choose|i: int|
            0 <= i < texts(schemes).len() && in_scheme(t, #[trigger] texts(schemes)[i]);
        let s = texts(schemes)[i];
        assert(schemes[i]@ == s);
        lemma_in_scheme(t, s);
        let rest = choose|rest: Seq<char>| t == #[trigger] (s + seq![':'] + rest);
        assert(names(schemes, s) && t == s + seq![':'] + rest);
    }
    if lies_under(t, schemes) {
        let (s, rest) = choose|s: Seq<char>, rest: Seq<char>|
            names(schemes, s) && t == #[trigger] (s + seq![':'] + rest);
        lemma_in_scheme(t, s);
        let i = choose|i: int| 0 <= i < schemes.len() && (#[trigger] schemes[i])@ == s;
        assert(in_scheme(t, texts(schemes)[i]));
    }
}

/// Texts are compared by the bytes of their encodings.
pub proof fn texts_are_compared_bytewise(a: &str, b: &str, r: bool)
    requires
        call_ensures(precedes, (a, b), r),
    ensures
        r <==> less(encode_utf8(a@), encode_utf8(b@)),
{
    lemma_less(encode_utf8(a@), encode_utf8(b@));
}

/// A scheme's name, a colon and anything at all make a path that lies in the scheme.
pub proof fn a_path_under_a_scheme_lies_in_it(path: &str, scheme: &str, rest: Seq<char>, r: bool)
    requires
        call_ensures(lies_in_scheme, (path, scheme), r),
        path@ == scheme@ + seq![':'] + rest,
    ensures
        r,
{
    lemma_in_scheme(path@, scheme@);
}

/// A path that lies in a scheme is that scheme's name, a colon, and what is left of the path.
pub proof fn a_path_in_a_scheme_begins_with_it(path: &str, scheme: &str, r: bool)
    requires
        call_ensures(lies_in_scheme, (path, scheme), r),
        r,
    ensures
        path@ == scheme@ + seq![':'] + path@.skip((scheme@.len() + 1) as int),
{
    lemma_in_scheme(path@, scheme@);
    let rest = choose|rest: Seq<char>| path@ == #[trigger] (scheme@ + seq![':'] + rest);
    assert(path@.skip((scheme@.len() + 1) as int) =~= rest);
}

/// A list holds a name just when one of its items is that name.
pub proof fn a_list_holds_its_items(list: &Vec<String>, name: &String, r: bool)
    requires
        call_ensures(holds, (list, name), r),
    ensures
        r <==> names(list@, name@),
{
    lemma_names(list@, name@);
}

/// A path lies in one of several schemes just when it is the name of one of them, a colon, and
/// anything.
pub proof fn a_path_lies_under_some_scheme(path: &String, schemes: &Vec<String>, r: bool)
    requires
        call_ensures(lies_in_some_scheme, (path, schemes), r),
    ensures
        r <==> lies_under(path@, schemes@),
{
    lemma_lies_under(path@, schemes@);
}

/// Sorting keeps every text of the list and no other, and puts them in ascending order.
pub proof fn sorting_keeps_every_text(list: &Vec<String>, r: Vec<String>, t: Seq<char>)
    requires
        call_ensures(sort_dedup, (list,), r),
    ensures
        names(r@, t) <==> names(list@, t),
        ascends(r@),
{
    lemma_names(list@, t);
    lemma_names(r@, t);
    assert(texts(r@).contains(t) <==> texts(list@).contains(t));
    lemma_ascends(r@);
}

/// Of the schemes in a list, just the known ones are kept, in ascending order.
pub proof fn known_schemes_are_kept(
    list: &Vec<String>,
    schemes: &Vec<String>,
    r: Vec<String>,
    t: Seq<char>,
)
    requires
        call_ensures(select_known, (list, schemes), r),
    ensures
        names(r@, t) <==> names(list@, t) && names(schemes@, t),
        ascends(r@),
{
    lemma_names(list@, t);
    lemma_names(schemes@, t);
    lemma_names(r@, t);
    assert(texts(r@).contains(t) <==> (texts(list@).contains(t) && texts(schemes@).contains(t)));
    lemma_ascends(r@);
}

/// Of the paths in a list, just those that lie in one of the schemes are kept, in ascending
/// order.
pub proof fn paths_in_schemes_are_kept(
    list: &Vec<String>,
    schemes: &Vec<String>,
    r: Vec<String>,
    t: Seq<char>,
)
    requires
        call_ensures(select_in_schemes, (list, schemes), r),
    ensures
        names(r@, t) <==> names(list@, t) && lies_under(t, schemes@),
        ascends(r@),
{
    lemma_names(list@, t);
    lemma_lies_under(t, schemes@);
    lemma_names(r@, t);
    assert(texts(r@).contains(t) <==> (texts(list@).contains(t) && in_some_scheme(
        t,
        texts(schemes@),
    )));
    lemma_ascends(r@);
}

} // verus!
