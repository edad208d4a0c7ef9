//! Bringing lists of names and paths into order, and thinning them out.
use vstd::prelude::*;

use crate::text::{holds, lies_in_some_scheme, precedes};
use crate::text::{before, in_some_scheme, is_ordered_set, texts};
use crate::text::{before_is_irreflexive, before_is_total, before_is_transitive};

verus! {

/// `output` holds those texts of `input` that `keep` picks, in ascending order, each once.
pub open spec fn selects(
    input: Seq<Seq<char>>,
    keep: spec_fn(Seq<char>) -> bool,
    output: Seq<Seq<char>>,
) -> bool {
    &&& is_ordered_set(output)
    &&& forall|t: Seq<char>| #[trigger]
        output.contains(t) <==> (input.contains(t) && keep(t))
}

/// Two ordered sets with the same members are one list.
pub proof fn ordered_set_is_unique(a: Seq<Seq<char>>, b: Seq<Seq<char>>)
    requires
        is_ordered_set(a),
        is_ordered_set(b),
        forall|t: Seq<char>| #[trigger] a.contains(t) <==> b.contains(t),
    ensures
        a == b,
    decreases a.len(),
{
    if a.len() == 0 {
        if b.len() > 0 {
            assert(b.contains(b[0]));
            assert(a.contains(b[0]));
        }
        assert(a =~= b);
    } else {
        let x = a.last();
        assert(a[a.len() - 1] == x);
        assert(a.contains(x));
        assert(b.contains(x));
        let j = choose|j: int| 0 <= j < b.len() && b[j] == x;
        let y = b.last();
        assert(b[b.len() - 1] == y);
        assert(b.contains(y));
        assert(a.contains(y));
        let k = choose|k: int| 0 <= k < a.len() && a[k] == y;
        if j < b.len() - 1 {
            assert(before(b[j], b[b.len() - 1]));
            if k < a.len() - 1 {
                assert(before(a[k], a[a.len() - 1]));
                before_is_transitive(x, y, x);
            }
            before_is_irreflexive(x);
        }
        assert(x == y);
        let a1 = a.drop_last();
        let b1 = b.drop_last();
        assert forall|t: Seq<char>| #[trigger] a1.contains(t) <==> b1.contains(t) by {
            if a1.contains(t) {
                let p = choose|p: int| 0 <= p < a1.len() && a1[p] == t;
                assert(a[p] == t);
                assert(a.contains(t));
                assert(before(a[p], a[a.len() - 1]));
                before_is_irreflexive(x);
                let q = choose|q: int| 0 <= q < b.len() && b[q] == t;
                assert(b1[q] == t);
            }
            if b1.contains(t) {
                let q = choose|q: int| 0 <= q < b1.len() && b1[q] == t;
                assert(b[q] == t);
                assert(b.contains(t));
                assert(a.contains(t));
                assert(before(b[q], b[b.len() - 1]));
                before_is_irreflexive(x);
                let p = choose|p: int| 0 <= p < a.len() && a[p] == t;
                assert(a1[p] == t);
            }
        }
        ordered_set_is_unique(a1, b1);
        assert(a =~= a1.push(x));
        assert(b =~= b1.push(x));
    }
}

/// What [`selects`] describes is one list.
pub proof fn selection_is_unique(
    input: Seq<Seq<char>>,
    keep: spec_fn(Seq<char>) -> bool,
    a: Seq<Seq<char>>,
    b: Seq<Seq<char>>,
)
    requires
        selects(input, keep, a),
        selects(input, keep, b),
    ensures
        a == b,
{
    ordered_set_is_unique(a, b);
}

/// Adds `item` to an ordered set.
fn insert_ordered(list: &mut Vec<String>, item: String)
    requires
        is_ordered_set(texts(old(list)@)),
    ensures
        is_ordered_set(texts(final(list)@)),
        forall|t: Seq<char>| #[trigger]
            texts(final(list)@).contains(t) <==> (texts(old(list)@).contains(t) || t == item@),
{
    let ghost start = texts(list@);
    let mut i: usize = 0;
    while i < list.len() && precedes(list[i].as_str(), item.as_str())
        invariant
            i <= list@.len(),
            texts(list@) == start,
            forall|j: int| 0 <= j < i ==> before(#[trigger] start[j], item@),
        decreases list@.len() - i,
    {
        assert(start[i as int] == list@[i as int]@);
        i = i + 1;
    }
    if i < list.len() && list[i] == item {
        assert(start[i as int] == item@);
        return ;
    }
    let ghost text = item@;
    list.insert(i, item);
    proof {
        let end = texts(list@);
        assert(end =~= start.insert(i as int, text));
        if i < start.len() {
            assert(!before(start[i as int], text));
            before_is_total(start[i as int], text);
        }
        assert forall|p: int, q: int| 0 <= p < q < end.len() implies before(
            #[trigger] end[p],
            #[trigger] end[q],
        ) by {
            if p == i {
                assert(end[q] == start[q - 1]);
                if q - 1 > i {
                    before_is_transitive(text, start[i as int], start[q - 1]);
                }
            } else if q == i {
                assert(end[p] == start[p]);
            } else {
                let p0 = if p < i { p } else { p - 1 };
                let q0 = if q < i { q } else { q - 1 };
                assert(end[p] == start[p0] && end[q] == start[q0]);
            }
        }
        assert forall|t: Seq<char>| #[trigger]
            end.contains(t) <==> (start.contains(t) || t == text) by {
            if end.contains(t) {
                let p = choose|p: int| 0 <= p < end.len() && end[p] == t;
                if p < i {
                    assert(start[p] == t);
                } else if p > i {
                    assert(start[p - 1] == t);
                }
            }
            if start.contains(t) {
                let p = choose|p: int| 0 <= p < start.len() && start[p] == t;
                assert(end[if p < i { p } else { p + 1 }] == t);
            }
            if t == text {
                assert(end[i as int] == t);
            }
        }
    }
}

/// Sorts `list` and drops what occurs twice.
pub fn sort_dedup(list: &Vec<String>) -> (r: Vec<String>)
    ensures
        selects(texts(list@), |t: Seq<char>| true, texts(r@)),
{
    let mut r: Vec<String> = Vec::new();
    let mut i: usize = 0;
    assert(texts(list@).take(0) =~= Seq::<Seq<char>>::empty());
    while i < list.len()
        invariant
            i <= list@.len(),
            is_ordered_set(texts(r@)),
            forall|t: Seq<char>| #[trigger]
                texts(r@).contains(t) <==> texts(list@).take(i as int).contains(t),
        decreases list@.len() - i,
    {
        let ghost done = texts(list@).take(i as int);
        let ghost next = texts(list@).take(i + 1);
        insert_ordered(&mut r, list[i].clone());
        i = i + 1;
        proof {
            let x = list@[i - 1]@;
            assert(next =~= done.push(x));
            assert forall|t: Seq<char>| #[trigger] next.contains(t) <==> (done.contains(t) || t == x) by {
                if next.contains(t) {
                    let p = choose|p: int| 0 <= p < next.len() && next[p] == t;
                    if p < done.len() {
                        assert(done[p] == t);
                    }
                }
                if done.contains(t) {
                    let p = choose|p: int| 0 <= p < done.len() && done[p] == t;
                    assert(next[p] == t);
                }
                if t == x {
                    assert(next[i - 1] == t);
                }
            }
            assert forall|t: Seq<char>| #[trigger]
                texts(r@).contains(t) <==> texts(list@).take(i as int).contains(t) by {
                assert(next.contains(t) <==> (done.contains(t) || t == x));
            }
        }
    }
    assert(texts(list@).take(i as int) =~= texts(list@));
    r
}

/// What a filter leaves of an ordered set is an ordered set of the members that it keeps.
proof fn lemma_filter(list: Seq<Seq<char>>, keep: spec_fn(Seq<char>) -> bool)
    requires
        is_ordered_set(list),
    ensures
        selects(list, keep, list.filter(keep)),
    decreases list.len(),
{
    reveal(Seq::filter);
    let out = list.filter(keep);
    if list.len() > 0 {
        let head = list.drop_last();
        let x = list.last();
        let sub = head.filter(keep);
        lemma_filter(head, keep);
        assert(out == if keep(x) { sub.push(x) } else { sub });
        assert forall|p: int, q: int| 0 <= p < q < out.len() implies before(
            #[trigger] out[p],
            #[trigger] out[q],
        ) by {
            if q == sub.len() {
                assert(sub[p] == out[p]);
                assert(sub.contains(out[p]));
                assert(head.contains(out[p]));
                let k = choose|k: int| 0 <= k < head.len() && head[k] == out[p];
                assert(list[k] == out[p]);
                assert(before(list[k], list[list.len() - 1]));
            } else {
                assert(sub[p] == out[p] && sub[q] == out[q]);
            }
        }
        assert forall|t: Seq<char>| #[trigger] out.contains(t) <==> (list.contains(t) && keep(t)) by {
            if out.contains(t) {
                let p = choose|p: int| 0 <= p < out.len() && out[p] == t;
                if p < sub.len() {
                    assert(sub[p] == t);
                    assert(sub.contains(t));
                    let k = choose|k: int| 0 <= k < head.len() && head[k] == t;
                    assert(list[k] == t);
                } else {
                    assert(list[list.len() - 1] == t);
                }
            }
            if list.contains(t) && keep(t) {
                let p = choose|p: int| 0 <= p < list.len() && list[p] == t;
                if p < head.len() {
                    assert(head[p] == t);
                    assert(sub.contains(t));
                    let k = choose|k: int| 0 <= k < sub.len() && sub[k] == t;
                    assert(out[k] == t);
                } else {
                    assert(out[sub.len() as int] == t);
                }
            }
        }
    }
}

/// The known schemes among those named in `list`, sorted and each once.
pub fn select_known(list: &Vec<String>, schemes: &Vec<String>) -> (r: Vec<String>)
    ensures
        selects(texts(list@), |t: Seq<char>| texts(schemes@).contains(t), texts(r@)),
{
    let ghost keep = |t: Seq<char>| texts(schemes@).contains(t);
    let sorted: Vec<String> = sort_dedup(list);
    let mut r: Vec<String> = Vec::new();
    let mut i: usize = 0;
    proof {
        reveal(Seq::filter);
        assert(texts(r@) =~= texts(sorted@).take(0).filter(keep));
    }
    while i < sorted.len()
        invariant
            i <= sorted@.len(),
            keep == (|t: Seq<char>| texts(schemes@).contains(t)),
            texts(r@) == texts(sorted@).take(i as int).filter(keep),
        decreases sorted@.len() - i,
    {
        let ghost kept = r@;
        if holds(schemes, &sorted[i]) {
            r.push(sorted[i].clone());
        }
        i = i + 1;
        proof {
            lemma_filter_step(sorted@, (i - 1) as int, keep, kept, r@);
        }
    }
    proof {
        assert(texts(sorted@).take(i as int) =~= texts(sorted@));
        lemma_filter(texts(sorted@), keep);
    }
    r
}

/// The paths in `list` that lie in one of `schemes`, sorted and each once.
pub fn select_in_schemes(list: &Vec<String>, schemes: &Vec<String>) -> (r: Vec<String>)
    ensures
        selects(texts(list@), |t: Seq<char>| in_some_scheme(t, texts(schemes@)), texts(r@)),
{
    let ghost keep = |t: Seq<char>| in_some_scheme(t, texts(schemes@));
    let sorted: Vec<String> = sort_dedup(list);
    let mut r: Vec<String> = Vec::new();
    let mut i: usize = 0;
    proof {
        reveal(Seq::filter);
        assert(texts(r@) =~= texts(sorted@).take(0).filter(keep));
    }
    while i < sorted.len()
        invariant
            i <= sorted@.len(),
            keep == (|t: Seq<char>| in_some_scheme(t, texts(schemes@))),
            texts(r@) == texts(sorted@).take(i as int).filter(keep),
        decreases sorted@.len() - i,
    {
        let ghost kept = r@;
        if lies_in_some_scheme(&sorted[i], schemes) {
            r.push(sorted[i].clone());
        }
        i = i + 1;
        proof {
            lemma_filter_step(sorted@, (i - 1) as int, keep, kept, r@);
        }
    }
    proof {
        assert(texts(sorted@).take(i as int) =~= texts(sorted@));
        lemma_filter(texts(sorted@), keep);
    }
    r
}

/// One more item goes through the filter.
proof fn lemma_filter_step(
    list: Seq<String>,
    i: int,
    keep: spec_fn(Seq<char>) -> bool,
    kept: Seq<String>,
    now: Seq<String>,
)
    requires
        0 <= i < list.len(),
        texts(kept) == texts(list).take(i).filter(keep),
        now == if keep(list[i]@) {
            kept.push(list[i])
        } else {
            kept
        },
    ensures
        texts(now) == texts(list).take(i + 1).filter(keep),
{
    reveal(Seq::filter);
    let next = texts(list).take(i + 1);
    assert(next.drop_last() =~= texts(list).take(i));
    assert(next.last() == list[i]@);
    if keep(list[i]@) {
        assert(texts(now) =~= texts(kept).push(list[i]@));
    }
}

} // verus!
