//! Algebraic laws of the document algebra, proved against the model.

use vstd::prelude::*;

use crate::model::DocCoreV;
use crate::model::DocV;
use crate::model::be_m;
use crate::model::best_m;
use crate::model::better_m;
use crate::model::fits_m;
use crate::model::flatten_m;
use crate::model::group_m;
use crate::model::layout_m;
use crate::model::lemma_list_size_append;
use crate::model::lemma_list_one;
use crate::model::lemma_list_two;
use crate::model::list_size;
use crate::model::pretty_m;

verus! {

/// Flattening is idempotent: a document with every potential line break
/// already collapsed to a space is left unchanged by flattening again.
pub proof fn lemma_flatten_idempotent(x: DocCoreV)
    ensures
        flatten_m(flatten_m(x)) == flatten_m(x),
    decreases x,
{
    match x {
        DocCoreV::Append(a, b) => {
            lemma_flatten_idempotent(*a);
            lemma_flatten_idempotent(*b);
        },
        DocCoreV::Nest(i, a) => {
            lemma_flatten_idempotent(*a);
        },
        DocCoreV::Union(a, b) => {
            lemma_flatten_idempotent(*a);
        },
        _ => {},
    }
}

/// Grouping never changes flattened content: the flattening of a grouped
/// document is the flattening of the document itself.
pub proof fn lemma_group_preserves_flattening(x: DocCoreV)
    ensures
        flatten_m(group_m(x)) == flatten_m(x),
{
    lemma_flatten_idempotent(x);
}

/// Resolving a concatenation anywhere in the worklist equals resolving
/// its two parts in order in its place: the engine does not depend on how
/// concatenations are associated.
pub proof fn lemma_be_expand_append(
    w: int,
    k: int,
    u: Seq<(int, DocCoreV)>,
    i: int,
    a: DocCoreV,
    b: DocCoreV,
    v: Seq<(int, DocCoreV)>,
)
    ensures
        be_m(w, k, u + seq![(i, DocCoreV::Append(Box::new(a), Box::new(b)))] + v) == be_m(
            w,
            k,
            u + seq![(i, a), (i, b)] + v,
        ),
    decreases list_size(u + seq![(i, DocCoreV::Append(Box::new(a), Box::new(b)))] + v),
{
    let mid1 = seq![(i, DocCoreV::Append(Box::new(a), Box::new(b)))];
    let mid2 = seq![(i, a), (i, b)];
    let l1 = u + mid1 + v;
    let l2 = u + mid2 + v;
    lemma_list_size_append(u + mid1, v);
    lemma_list_size_append(u, mid1);
    lemma_list_one((i, DocCoreV::Append(Box::new(a), Box::new(b))));
    if u.len() == 0 {
        assert(l1 =~= mid1 + v);
        assert(l1[0] == (i, DocCoreV::Append(Box::new(a), Box::new(b))));
        assert(l1.drop_first() =~= v);
        assert(seq![(i, a), (i, b)] + l1.drop_first() =~= l2);
        assert(be_m(w, k, l1) == be_m(w, k, l2));
    } else {
        let h = u[0];
        let u2 = u.drop_first();
        assert(l1[0] == h);
        assert(l2[0] == h);
        assert(l1.drop_first() =~= u2 + mid1 + v);
        assert(l2.drop_first() =~= u2 + mid2 + v);
        lemma_list_size_append(u2 + mid1, v);
        lemma_list_size_append(u2, mid1);
        match h.1 {
            DocCoreV::Nil => {
                lemma_be_expand_append(w, k, u2, i, a, b, v);
            },
            DocCoreV::Append(p, q) => {
                let pre = seq![(h.0, *p), (h.0, *q)];
                assert(pre + (u2 + mid1 + v) =~= (pre + u2) + mid1 + v);
                assert(pre + (u2 + mid2 + v) =~= (pre + u2) + mid2 + v);
                lemma_list_two((h.0, *p), (h.0, *q));
                lemma_list_size_append(pre, u2 + mid1 + v);
                lemma_list_size_append((pre + u2) + mid1, v);
                lemma_list_size_append(pre + u2, mid1);
                lemma_list_size_append(pre, u2);
                lemma_be_expand_append(w, k, pre + u2, i, a, b, v);
            },
            DocCoreV::Nest(j, p) => {
                let pre = seq![(h.0 + j, *p)];
                assert(pre + (u2 + mid1 + v) =~= (pre + u2) + mid1 + v);
                assert(pre + (u2 + mid2 + v) =~= (pre + u2) + mid2 + v);
                lemma_list_one((h.0 + j, *p));
                lemma_list_size_append(pre, u2 + mid1 + v);
                lemma_list_size_append((pre + u2) + mid1, v);
                lemma_list_size_append(pre + u2, mid1);
                lemma_list_size_append(pre, u2);
                lemma_be_expand_append(w, k, pre + u2, i, a, b, v);
            },
            DocCoreV::Text(s) => {
                lemma_be_expand_append(w, k + s.len(), u2, i, a, b, v);
            },
            DocCoreV::Line => {
                lemma_be_expand_append(w, h.0, u2, i, a, b, v);
            },
            DocCoreV::Union(p, q) => {
                let pre1 = seq![(h.0, *p)];
                let pre2 = seq![(h.0, *q)];
                assert(pre1 + (u2 + mid1 + v) =~= (pre1 + u2) + mid1 + v);
                assert(pre1 + (u2 + mid2 + v) =~= (pre1 + u2) + mid2 + v);
                assert(pre2 + (u2 + mid1 + v) =~= (pre2 + u2) + mid1 + v);
                assert(pre2 + (u2 + mid2 + v) =~= (pre2 + u2) + mid2 + v);
                lemma_list_one((h.0, *p));
                lemma_list_one((h.0, *q));
                lemma_list_size_append(pre1, u2 + mid1 + v);
                lemma_list_size_append((pre1 + u2) + mid1, v);
                lemma_list_size_append(pre1 + u2, mid1);
                lemma_list_size_append(pre1, u2);
                lemma_list_size_append(pre2, u2 + mid1 + v);
                lemma_list_size_append((pre2 + u2) + mid1, v);
                lemma_list_size_append(pre2 + u2, mid1);
                lemma_list_size_append(pre2, u2);
                lemma_be_expand_append(w, k, pre1 + u2, i, a, b, v);
                lemma_be_expand_append(w, k, pre2 + u2, i, a, b, v);
            },
        }
    }
}

/// Resolving an empty document anywhere in the worklist equals dropping
/// it: the empty document is invisible to the engine.
pub proof fn lemma_be_drop_nil(
    w: int,
    k: int,
    u: Seq<(int, DocCoreV)>,
    i: int,
    v: Seq<(int, DocCoreV)>,
)
    ensures
        be_m(w, k, u + seq![(i, DocCoreV::Nil)] + v) == be_m(w, k, u + v),
    decreases list_size(u + seq![(i, DocCoreV::Nil)] + v),
{
    let mid = seq![(i, DocCoreV::Nil)];
    let l1 = u + mid + v;
    let l2 = u + v;
    lemma_list_size_append(u + mid, v);
    lemma_list_size_append(u, mid);
    lemma_list_one((i, DocCoreV::Nil));
    if u.len() == 0 {
        assert(l1 =~= mid + v);
        assert(l1[0] == (i, DocCoreV::Nil));
        assert(l1.drop_first() =~= v);
        assert(l2 =~= v);
        assert(be_m(w, k, l1) == be_m(w, k, l2));
    } else {
        let h = u[0];
        let u2 = u.drop_first();
        assert(l1[0] == h);
        assert(l2[0] == h);
        assert(l1.drop_first() =~= u2 + mid + v);
        assert(l2.drop_first() =~= u2 + v);
        lemma_list_size_append(u2 + mid, v);
        lemma_list_size_append(u2, mid);
        match h.1 {
            DocCoreV::Nil => {
                lemma_be_drop_nil(w, k, u2, i, v);
            },
            DocCoreV::Append(p, q) => {
                let pre = seq![(h.0, *p), (h.0, *q)];
                assert(pre + (u2 + mid + v) =~= (pre + u2) + mid + v);
                assert(pre + (u2 + v) =~= (pre + u2) + v);
                lemma_list_two((h.0, *p), (h.0, *q));
                lemma_list_size_append(pre, u2 + mid + v);
                lemma_list_size_append((pre + u2) + mid, v);
                lemma_list_size_append(pre + u2, mid);
                lemma_list_size_append(pre, u2);
                lemma_be_drop_nil(w, k, pre + u2, i, v);
            },
            DocCoreV::Nest(j, p) => {
                let pre = seq![(h.0 + j, *p)];
                assert(pre + (u2 + mid + v) =~= (pre + u2) + mid + v);
                assert(pre + (u2 + v) =~= (pre + u2) + v);
                lemma_list_one((h.0 + j, *p));
                lemma_list_size_append(pre, u2 + mid + v);
                lemma_list_size_append((pre + u2) + mid, v);
                lemma_list_size_append(pre + u2, mid);
                lemma_list_size_append(pre, u2);
                lemma_be_drop_nil(w, k, pre + u2, i, v);
            },
            DocCoreV::Text(s) => {
                lemma_be_drop_nil(w, k + s.len(), u2, i, v);
            },
            DocCoreV::Line => {
                lemma_be_drop_nil(w, h.0, u2, i, v);
            },
            DocCoreV::Union(p, q) => {
                let pre1 = seq![(h.0, *p)];
                let pre2 = seq![(h.0, *q)];
                assert(pre1 + (u2 + mid + v) =~= (pre1 + u2) + mid + v);
                assert(pre1 + (u2 + v) =~= (pre1 + u2) + v);
                assert(pre2 + (u2 + mid + v) =~= (pre2 + u2) + mid + v);
                assert(pre2 + (u2 + v) =~= (pre2 + u2) + v);
                lemma_list_one((h.0, *p));
                lemma_list_one((h.0, *q));
                lemma_list_size_append(pre1, u2 + mid + v);
                lemma_list_size_append((pre1 + u2) + mid, v);
                lemma_list_size_append(pre1 + u2, mid);
                lemma_list_size_append(pre1, u2);
                lemma_list_size_append(pre2, u2 + mid + v);
                lemma_list_size_append((pre2 + u2) + mid, v);
                lemma_list_size_append(pre2 + u2, mid);
                lemma_list_size_append(pre2, u2);
                lemma_be_drop_nil(w, k, pre1 + u2, i, v);
                lemma_be_drop_nil(w, k, pre2 + u2, i, v);
            },
        }
    }
}

/// The empty document is the identity of concatenation: appending it on
/// either side changes no rendering, at any width.
pub proof fn lemma_pretty_nil_identity(w: int, x: DocCoreV)
    ensures
        pretty_m(w, DocCoreV::Append(Box::new(DocCoreV::Nil), Box::new(x))) == pretty_m(w, x),
        pretty_m(w, DocCoreV::Append(Box::new(x), Box::new(DocCoreV::Nil))) == pretty_m(w, x),
{
    let e = Seq::<(int, DocCoreV)>::empty();
    let left = DocCoreV::Append(Box::new(DocCoreV::Nil), Box::new(x));
    let right = DocCoreV::Append(Box::new(x), Box::new(DocCoreV::Nil));
    lemma_be_expand_append(w, 0, e, 0, DocCoreV::Nil, x, e);
    assert(e + seq![(0int, left)] + e =~= seq![(0int, left)]);
    assert(e + seq![(0int, DocCoreV::Nil), (0int, x)] + e =~= e + seq![(0int, DocCoreV::Nil)]
        + seq![(0int, x)]);
    lemma_be_drop_nil(w, 0, e, 0, seq![(0int, x)]);
    assert(e + seq![(0int, x)] =~= seq![(0int, x)]);
    assert(best_m(w, 0, left) == best_m(w, 0, x));

    lemma_be_expand_append(w, 0, e, 0, x, DocCoreV::Nil, e);
    assert(e + seq![(0int, right)] + e =~= seq![(0int, right)]);
    assert(e + seq![(0int, x), (0int, DocCoreV::Nil)] + e =~= seq![(0int, x)] + seq![
        (0int, DocCoreV::Nil),
    ] + e);
    lemma_be_drop_nil(w, 0, seq![(0int, x)], 0, e);
    assert(seq![(0int, x)] + e =~= seq![(0int, x)]);
    assert(best_m(w, 0, right) == best_m(w, 0, x));
}

/// Concatenation is associative: either association of three documents
/// renders identically, at any width.
pub proof fn lemma_pretty_append_assoc(w: int, x: DocCoreV, y: DocCoreV, z: DocCoreV)
    ensures
        pretty_m(
            w,
            DocCoreV::Append(Box::new(DocCoreV::Append(Box::new(x), Box::new(y))), Box::new(z)),
        ) == pretty_m(
            w,
            DocCoreV::Append(Box::new(x), Box::new(DocCoreV::Append(Box::new(y), Box::new(z)))),
        ),
{
    let e = Seq::<(int, DocCoreV)>::empty();
    let xy = DocCoreV::Append(Box::new(x), Box::new(y));
    let yz = DocCoreV::Append(Box::new(y), Box::new(z));
    let left = DocCoreV::Append(Box::new(xy), Box::new(z));
    let right = DocCoreV::Append(Box::new(x), Box::new(yz));

    lemma_be_expand_append(w, 0, e, 0, xy, z, e);
    assert(e + seq![(0int, left)] + e =~= seq![(0int, left)]);
    lemma_be_expand_append(w, 0, e, 0, x, y, seq![(0int, z)]);
    assert(e + seq![(0int, xy), (0int, z)] + e =~= e + seq![(0int, xy)] + seq![(0int, z)]);
    assert(e + seq![(0int, x), (0int, y)] + seq![(0int, z)] =~= seq![
        (0int, x),
        (0int, y),
        (0int, z),
    ]);
    assert(best_m(w, 0, left) == be_m(w, 0, seq![(0int, x), (0int, y), (0int, z)]));

    lemma_be_expand_append(w, 0, e, 0, x, yz, e);
    assert(e + seq![(0int, right)] + e =~= seq![(0int, right)]);
    lemma_be_expand_append(w, 0, seq![(0int, x)], 0, y, z, e);
    assert(e + seq![(0int, x), (0int, yz)] + e =~= seq![(0int, x)] + seq![(0int, yz)] + e);
    assert(seq![(0int, x)] + seq![(0int, y), (0int, z)] + e =~= seq![
        (0int, x),
        (0int, y),
        (0int, z),
    ]);
    assert(best_m(w, 0, right) == be_m(w, 0, seq![(0int, x), (0int, y), (0int, z)]));
}

/// Widening only helps a layout fit: whatever fits in the remaining
/// width also fits in any larger remaining width.
pub proof fn lemma_fits_widen(w1: int, w2: int, x: DocV)
    requires
        w1 <= w2,
        fits_m(w1, x),
    ensures
        fits_m(w2, x),
    decreases x,
{
    match x {
        DocV::Text(s, rest) => {
            lemma_fits_widen(w1 - s.len(), w2 - s.len(), *rest);
        },
        _ => {},
    }
}

/// The text of a resolved layout up to its first line break.
pub open spec fn first_line_m(x: DocV) -> Seq<char>
    decreases x,
{
    match x {
        DocV::Nil => Seq::empty(),
        DocV::Text(s, rest) => s + first_line_m(*rest),
        DocV::Line(i, rest) => Seq::empty(),
    }
}

/// A layout that fits in the remaining width really does keep its first
/// line within it: the engine's lookahead measures exactly the text that
/// will be emitted before the next line break.
pub proof fn lemma_fits_first_line(w: int, x: DocV)
    requires
        fits_m(w, x),
    ensures
        first_line_m(x).len() <= w,
    decreases x,
{
    match x {
        DocV::Text(s, rest) => {
            lemma_fits_first_line(w - s.len(), *rest);
        },
        _ => {},
    }
}

/// A document with neither potential line breaks nor choices left.
pub open spec fn flat_m(x: DocCoreV) -> bool
    decreases x,
{
    match x {
        DocCoreV::Nil => true,
        DocCoreV::Append(a, b) => flat_m(*a) && flat_m(*b),
        DocCoreV::Nest(i, a) => flat_m(*a),
        DocCoreV::Text(s) => true,
        DocCoreV::Line => false,
        DocCoreV::Union(a, b) => false,
    }
}

/// A resolved layout that emits no line break.
pub open spec fn single_line_m(x: DocV) -> bool
    decreases x,
{
    match x {
        DocV::Nil => true,
        DocV::Text(s, rest) => single_line_m(*rest),
        DocV::Line(i, rest) => false,
    }
}

/// Flattening leaves neither potential line breaks nor choices behind.
pub proof fn lemma_flatten_is_flat(x: DocCoreV)
    ensures
        flat_m(flatten_m(x)),
    decreases x,
{
    match x {
        DocCoreV::Append(a, b) => {
            lemma_flatten_is_flat(*a);
            lemma_flatten_is_flat(*b);
        },
        DocCoreV::Nest(i, a) => {
            lemma_flatten_is_flat(*a);
        },
        DocCoreV::Union(a, b) => {
            lemma_flatten_is_flat(*a);
        },
        _ => {},
    }
}

/// A worklist of flat documents resolves to a layout without any line
/// break, at any width and column.
pub proof fn lemma_be_flat(w: int, k: int, xs: Seq<(int, DocCoreV)>)
    requires
        forall|n: int| 0 <= n < xs.len() ==> flat_m((#[trigger] xs[n]).1),
    ensures
        single_line_m(be_m(w, k, xs)),
    decreases list_size(xs),
{
    if xs.len() > 0 {
        let i = xs[0].0;
        let rest = xs.drop_first();
        assert(forall|n: int| 0 <= n < rest.len() ==> rest[n] == xs[n + 1]);
        match xs[0].1 {
            DocCoreV::Nil => {
                lemma_be_flat(w, k, rest);
            },
            DocCoreV::Append(a, b) => {
                let pre = seq![(i, *a), (i, *b)];
                lemma_list_two((i, *a), (i, *b));
                lemma_list_size_append(pre, rest);
                assert(forall|n: int|
                    0 <= n < (pre + rest).len() ==> flat_m((#[trigger] (pre + rest)[n]).1));
                lemma_be_flat(w, k, pre + rest);
            },
            DocCoreV::Nest(j, a) => {
                let pre = seq![(i + j, *a)];
                lemma_list_one((i + j, *a));
                lemma_list_size_append(pre, rest);
                assert(forall|n: int|
                    0 <= n < (pre + rest).len() ==> flat_m((#[trigger] (pre + rest)[n]).1));
                lemma_be_flat(w, k, pre + rest);
            },
            DocCoreV::Text(s) => {
                lemma_be_flat(w, k + s.len(), rest);
            },
            DocCoreV::Line => {
                assert(false);
            },
            DocCoreV::Union(a, b) => {
                assert(false);
            },
        }
    }
}

/// A flattened document renders on a single line: resolving it emits no
/// line break, whatever the width and the starting column.
pub proof fn lemma_flatten_single_line(w: int, k: int, x: DocCoreV)
    ensures
        single_line_m(best_m(w, k, flatten_m(x))),
{
    lemma_flatten_is_flat(x);
    lemma_be_flat(w, k, seq![(0int, flatten_m(x))]);
}

/// A document without choices: no `Union` anywhere.
pub open spec fn union_free_m(x: DocCoreV) -> bool
    decreases x,
{
    match x {
        DocCoreV::Nil => true,
        DocCoreV::Append(a, b) => union_free_m(*a) && union_free_m(*b),
        DocCoreV::Nest(i, a) => union_free_m(*a),
        DocCoreV::Text(s) => true,
        DocCoreV::Line => true,
        DocCoreV::Union(a, b) => false,
    }
}

/// A document without potential line breaks or choices has no choices.
pub proof fn lemma_flat_is_union_free(x: DocCoreV)
    requires
        flat_m(x),
    ensures
        union_free_m(x),
    decreases x,
{
    match x {
        DocCoreV::Append(a, b) => {
            lemma_flat_is_union_free(*a);
            lemma_flat_is_union_free(*b);
        },
        DocCoreV::Nest(i, a) => {
            lemma_flat_is_union_free(*a);
        },
        _ => {},
    }
}

/// The number of line breaks a resolved layout emits.
pub open spec fn breaks_m(x: DocV) -> nat
    decreases x,
{
    match x {
        DocV::Nil => 0,
        DocV::Text(s, rest) => breaks_m(*rest),
        DocV::Line(i, rest) => 1 + breaks_m(*rest),
    }
}

/// A layout without line breaks emits none.
pub proof fn lemma_single_line_no_breaks(x: DocV)
    requires
        single_line_m(x),
    ensures
        breaks_m(x) == 0,
    decreases x,
{
    match x {
        DocV::Text(s, rest) => {
            lemma_single_line_no_breaks(*rest);
        },
        _ => {},
    }
}

/// On a worklist without choices the engine never consults the width or
/// the column: the resolved layout is the same whatever they are.
pub proof fn lemma_be_union_free(
    w1: int,
    k1: int,
    w2: int,
    k2: int,
    xs: Seq<(int, DocCoreV)>,
)
    requires
        forall|n: int| 0 <= n < xs.len() ==> union_free_m((#[trigger] xs[n]).1),
    ensures
        be_m(w1, k1, xs) == be_m(w2, k2, xs),
    decreases list_size(xs),
{
    if xs.len() > 0 {
        let i = xs[0].0;
        let rest = xs.drop_first();
        assert(forall|n: int| 0 <= n < rest.len() ==> rest[n] == xs[n + 1]);
        match xs[0].1 {
            DocCoreV::Nil => {
                lemma_be_union_free(w1, k1, w2, k2, rest);
            },
            DocCoreV::Append(a, b) => {
                let pre = seq![(i, *a), (i, *b)];
                lemma_list_two((i, *a), (i, *b));
                lemma_list_size_append(pre, rest);
                assert(forall|n: int|
                    0 <= n < (pre + rest).len() ==> union_free_m(
                        (#[trigger] (pre + rest)[n]).1,
                    ));
                lemma_be_union_free(w1, k1, w2, k2, pre + rest);
            },
            DocCoreV::Nest(j, a) => {
                let pre = seq![(i + j, *a)];
                lemma_list_one((i + j, *a));
                lemma_list_size_append(pre, rest);
                assert(forall|n: int|
                    0 <= n < (pre + rest).len() ==> union_free_m(
                        (#[trigger] (pre + rest)[n]).1,
                    ));
                lemma_be_union_free(w1, k1, w2, k2, pre + rest);
            },
            DocCoreV::Text(s) => {
                lemma_be_union_free(w1, k1 + s.len(), w2, k2 + s.len(), rest);
            },
            DocCoreV::Line => {
                lemma_be_union_free(w1, i, w2, i, rest);
            },
            DocCoreV::Union(a, b) => {
                assert(false);
            },
        }
    }
}

/// Widening never adds line breaks to a grouped document whose body holds
/// no further choices: with one choice in play, a wider width can only
/// move the rendering from the broken layout to the single-line one.
pub proof fn lemma_group_width_monotone(w1: int, w2: int, x: DocCoreV)
    requires
        w1 <= w2,
        union_free_m(x),
    ensures
        breaks_m(best_m(w2, 0, group_m(x))) <= breaks_m(best_m(w1, 0, group_m(x))),
{
    let g1 = seq![(0int, group_m(x))];
    let fl = seq![(0int, flatten_m(x))];
    let pl = seq![(0int, x)];
    assert(g1.drop_first() =~= Seq::<(int, DocCoreV)>::empty());
    assert(fl + g1.drop_first() =~= fl);
    assert(pl + g1.drop_first() =~= pl);
    let dflat1 = best_m(w1, 0, flatten_m(x));
    let dflat2 = best_m(w2, 0, flatten_m(x));
    let dx1 = best_m(w1, 0, x);
    let dx2 = best_m(w2, 0, x);
    assert(best_m(w1, 0, group_m(x)) == better_m(w1, 0, dflat1, dx1));
    assert(best_m(w2, 0, group_m(x)) == better_m(w2, 0, dflat2, dx2));
    lemma_flatten_is_flat(x);
    lemma_flat_is_union_free(flatten_m(x));
    assert(fl[0].1 == flatten_m(x));
    assert(forall|n: int| 0 <= n < fl.len() ==> union_free_m((#[trigger] fl[n]).1));
    assert(forall|n: int| 0 <= n < pl.len() ==> union_free_m((#[trigger] pl[n]).1));
    lemma_be_union_free(w1, 0, w2, 0, fl);
    lemma_be_union_free(w1, 0, w2, 0, pl);
    lemma_flatten_single_line(w1, 0, x);
    lemma_single_line_no_breaks(dflat1);
    if fits_m(w2 - 0, dflat2) {
        lemma_single_line_no_breaks(dflat2);
    } else {
        if fits_m(w1 - 0, dflat1) {
            lemma_fits_widen(w1, w2, dflat1);
            assert(false);
        }
    }
}

/// A layout without line breaks is exactly its first line.
pub proof fn lemma_layout_single_line(x: DocV)
    requires
        single_line_m(x),
    ensures
        layout_m(x) == first_line_m(x),
    decreases x,
{
    match x {
        DocV::Text(s, rest) => {
            lemma_layout_single_line(*rest);
        },
        _ => {},
    }
}

/// What grouping means: a grouped document renders as its flattening
/// whenever that single-line form fits the width, and the whole output
/// then stays within the width; otherwise it renders as the document
/// itself, with its own line breaks.
pub proof fn lemma_group_semantics(w: int, x: DocCoreV)
    ensures
        fits_m(w, best_m(w, 0, flatten_m(x))) ==> pretty_m(w, group_m(x)) == pretty_m(
            w,
            flatten_m(x),
        ) && pretty_m(w, group_m(x)).len() <= w,
        !fits_m(w, best_m(w, 0, flatten_m(x))) ==> pretty_m(w, group_m(x)) == pretty_m(w, x),
{
    let g = seq![(0int, group_m(x))];
    let fl = seq![(0int, flatten_m(x))];
    let pl = seq![(0int, x)];
    assert(g.drop_first() =~= Seq::<(int, DocCoreV)>::empty());
    assert(fl + g.drop_first() =~= fl);
    assert(pl + g.drop_first() =~= pl);
    assert(best_m(w, 0, group_m(x)) == better_m(
        w,
        0,
        best_m(w, 0, flatten_m(x)),
        best_m(w, 0, x),
    ));
    if fits_m(w, best_m(w, 0, flatten_m(x))) {
        lemma_flatten_single_line(w, 0, x);
        lemma_layout_single_line(best_m(w, 0, flatten_m(x)));
        lemma_fits_first_line(w, best_m(w, 0, flatten_m(x)));
    }
}

/// What the greedy choice commits to: the first alternative is taken
/// exactly when it fits, and then the column plus the text it emits up to
/// its next line break stays within the width; otherwise the second
/// alternative is taken.
pub proof fn lemma_better_within_width(w: int, k: int, x: DocV, y: DocV)
    ensures
        fits_m(w - k, x) ==> better_m(w, k, x, y) == x && k + first_line_m(x).len() <= w,
        !fits_m(w - k, x) ==> better_m(w, k, x, y) == y,
{
    if fits_m(w - k, x) {
        lemma_fits_first_line(w - k, x);
    }
}

} // verus!
