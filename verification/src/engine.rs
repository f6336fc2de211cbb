//! The resolution engine and the renderer.
//!
//! `be` walks a worklist of `(indentation, document)` pairs at a current
//! column and resolves every choice greedily with `better`/`fits`;
//! `layout` turns the resolved layout into text. Column arithmetic is
//! bounded by the worklist's weight, so it never overflows.

use vstd::prelude::*;
use vstd::slice::slice_index_get;
use vstd::slice::slice_subrange;
use vstd::string::StrSliceExecFns;
use vstd::string::StringExecFns;

use crate::doc::Doc;
use crate::doc::DocCore;
use crate::model::DocCoreV;
use crate::model::be_m;
use crate::model::best_m;
use crate::model::better_m;
use crate::model::fits_m;
use crate::model::iabs;
use crate::model::layout_m;
use crate::model::lemma_list_one;
use crate::model::lemma_list_size_append;
use crate::model::lemma_list_two;
use crate::model::lemma_list_weight_append;
use crate::model::lemma_repeat_snoc;
use crate::model::list_size;
use crate::model::list_weight;
use crate::model::pretty_m;
use crate::model::repeat_m;
use crate::model::size;
use crate::model::weight;

verus! {

/// The model of a worklist of indented documents.
pub open spec fn wl_view(xs: Seq<(i64, DocCore)>) -> Seq<(int, DocCoreV)> {
    xs.map_values(|p: (i64, DocCore)| (p.0 as int, p.1@))
}

/// The engine's arithmetic stays within `i64` as long as the current
/// column and every indentation of the worklist keep this much headroom
/// above the worklist's weight.
pub open spec fn wl_bounded(k: int, xs: Seq<(i64, DocCore)>) -> bool {
    &&& iabs(k) + list_weight(wl_view(xs)) <= i64::MAX
    &&& forall|n: int|
        0 <= n < xs.len() ==> iabs(xs[n].0 as int) + list_weight(wl_view(xs)) <= i64::MAX
}

/// The model of a worklist is the model of its entries, in order.
pub proof fn lemma_wl_view_index(xs: Seq<(i64, DocCore)>)
    ensures
        wl_view(xs).len() == xs.len(),
        forall|n: int|
            0 <= n < xs.len() ==> wl_view(xs)[n] == (xs[n].0 as int, (#[trigger] xs[n]).1@),
{
}

/// The string repeated `i` times; an `i` that is not positive gives the
/// empty string.
pub fn copy(i: i64, x: &str) -> (r: String)
    ensures
        r@ == repeat_m(x@, i as int),
{
    let mut r = String::new();
    let mut n: i64 = 0;
    while n < i
        invariant
            0 <= n,
            i >= 0 ==> n <= i,
            i < 0 ==> n == 0,
            r@ == repeat_m(x@, n as int),
        decreases i - n,
    {
        proof {
            lemma_repeat_snoc(x@, n as int);
        }
        r.append(x);
        n = n + 1;
    }
    r
}

/// The text of a resolved layout: text verbatim, each line break a
/// newline followed by one space per indentation column.
pub fn layout(x: Doc) -> (r: String)
    ensures
        r@ == layout_m(x@),
    decreases x,
{
    match x {
        Doc::Nil => String::new(),
        Doc::Text(s, rest) => {
            let mut r = s;
            let tail = layout(*rest);
            r.append(tail.as_str());
            r
        },
        Doc::Line(i, rest) => {
            proof {
                reveal_strlit("\n");
                reveal_strlit(" ");
                assert("\n"@ =~= seq!['\n']);
                assert(" "@ =~= seq![' ']);
            }
            let mut r = "\n".to_owned();
            let sp = copy(i, " ");
            r.append(sp.as_str());
            let tail = layout(*rest);
            r.append(tail.as_str());
            proof {
                assert(r@ =~= seq!['\n'] + repeat_m(seq![' '], i as int) + layout_m(rest@));
            }
            r
        },
    }
}

/// `fits` on a remainder wide enough for any difference of two `i64`
/// columns.
fn fits_at(w: i128, x: &Doc) -> (b: bool)
    ensures
        b == fits_m(w as int, x@),
    decreases x,
{
    if w < 0 {
        false
    } else {
        match x {
            Doc::Nil => true,
            Doc::Text(s, rest) => {
                let n = s.as_str().unicode_len();
                fits_at(w - n as i128, rest)
            },
            Doc::Line(i, rest) => true,
        }
    }
}

/// Whether the resolved layout can be emitted within `w` remaining
/// columns, looking no further than its first line break.
pub fn fits(w: i64, x: Doc) -> (b: bool)
    ensures
        b == fits_m(w as int, x@),
{
    fits_at(w as i128, &x)
}

/// The greedy choice at column `k` under width `w`: the first layout if
/// it fits in the remaining space, else the second.
pub fn better(w: i64, k: i64, x: Doc, y: Doc) -> (r: Doc)
    ensures
        r@ == better_m(w as int, k as int, x@, y@),
{
    let rem = (w as i128) - (k as i128);
    if fits_at(rem, &x) {
        x
    } else {
        y
    }
}

/// Copy the entries of `xs` from position `from` on onto the end of `zs`.
fn push_tail(zs: &mut Vec<(i64, DocCore)>, xs: &[(i64, DocCore)], from: usize)
    requires
        from <= xs@.len(),
    ensures
        wl_view(final(zs)@) == wl_view(old(zs)@) + wl_view(
            xs@.subrange(from as int, xs@.len() as int),
        ),
{
    let mut n = from;
    while n < xs.len()
        invariant
            from <= n <= xs@.len(),
            wl_view(zs@) == wl_view(old(zs)@) + wl_view(xs@.subrange(from as int, n as int)),
        decreases xs@.len() - n,
    {
        let p = slice_index_get(xs, n);
        let d = p.1.dup();
        let ghost pre = zs@;
        zs.push((p.0, d));
        proof {
            lemma_wl_view_index(pre);
            lemma_wl_view_index(zs@);
            lemma_wl_view_index(old(zs)@);
            lemma_wl_view_index(xs@.subrange(from as int, n as int));
            lemma_wl_view_index(xs@.subrange(from as int, n as int + 1));
            assert(wl_view(zs@) =~= wl_view(old(zs)@) + wl_view(
                xs@.subrange(from as int, n as int + 1),
            ));
        }
        n = n + 1;
    }
    proof {
        assert(xs@.subrange(from as int, n as int) =~= xs@.subrange(from as int, xs@.len() as int));
    }
}

/// Resolve a worklist of `(indentation, document)` pairs at column `k`
/// under width `w` into a choice-free layout, rewriting the head step by
/// step and resolving each choice greedily.
pub fn be(w: i64, k: i64, xs: &[(i64, DocCore)]) -> (r: Doc)
    requires
        wl_bounded(k as int, xs@),
    ensures
        r@ == be_m(w as int, k as int, wl_view(xs@)),
    decreases list_size(wl_view(xs@)),
{
    proof {
        lemma_wl_view_index(xs@);
    }
    if xs.len() == 0 {
        proof {
            assert(wl_view(xs@) =~= Seq::<(int, DocCoreV)>::empty());
        }
        Doc::Nil
    } else {
        let ghost v = wl_view(xs@);
        let ghost t = v.drop_first();
        let p = slice_index_get(xs, 0);
        let i = p.0;
        proof {
            assert(v[0] == (i as int, p.1@));
            assert(list_size(v) == size(p.1@) + list_size(t));
            assert(list_weight(v) == weight(p.1@) + list_weight(t));
        }
        match &p.1 {
            DocCore::Nil => {
                let sub = slice_subrange(xs, 1, xs.len());
                proof {
                    lemma_wl_view_index(sub@);
                    assert(wl_view(sub@) =~= t);
                    assert forall|n: int| 0 <= n < sub@.len() implies iabs(
                        (#[trigger] sub@[n]).0 as int,
                    ) + list_weight(wl_view(sub@)) <= i64::MAX by {
                        assert(sub@[n] == xs@[n + 1]);
                        assert(iabs(xs@[n + 1].0 as int) + list_weight(v) <= i64::MAX);
                    }
                }
                be(w, k, sub)
            },
            DocCore::Append(a, b) => {
                let mut zs: Vec<(i64, DocCore)> = Vec::new();
                zs.push((i, a.dup()));
                zs.push((i, b.dup()));
                proof {
                    lemma_wl_view_index(zs@);
                    assert(wl_view(zs@) =~= seq![(i as int, a@), (i as int, b@)]);
                }
                push_tail(&mut zs, xs, 1);
                proof {
                    assert(xs@.subrange(1, xs@.len() as int) =~= xs@.drop_first());
                    lemma_wl_view_index(xs@.drop_first());
                    assert(wl_view(xs@.drop_first()) =~= t);
                    assert(wl_view(zs@) == seq![(i as int, a@), (i as int, b@)] + t);
                    lemma_list_size_append(seq![(i as int, a@), (i as int, b@)], t);
                    lemma_list_weight_append(seq![(i as int, a@), (i as int, b@)], t);
                    lemma_list_two((i as int, a@), (i as int, b@));
                    assert(p.1@ == DocCoreV::Append(Box::new(a@), Box::new(b@)));
                    assert(list_weight(wl_view(zs@)) == list_weight(v));
                    lemma_wl_view_index(zs@);
                    assert forall|n: int| 0 <= n < zs@.len() implies iabs(
                        (#[trigger] zs@[n]).0 as int,
                    ) + list_weight(wl_view(zs@)) <= i64::MAX by {
                        if n < 2 {
                            assert(zs@[n].0 == i);
                            assert(iabs(xs@[0].0 as int) + list_weight(v) <= i64::MAX);
                        } else {
                            assert(wl_view(zs@)[n] == t[n - 2]);
                            assert(zs@[n].0 as int == xs@[n - 1].0 as int);
                            assert(iabs(xs@[n - 1].0 as int) + list_weight(v) <= i64::MAX);
                        }
                    }
                    assert(wl_bounded(k as int, zs@));
                    assert(list_size(wl_view(zs@)) < list_size(v));
                }
                be(w, k, zs.as_slice())
            },
            DocCore::Nest(j, a) => {
                proof {
                    assert(p.1@ == DocCoreV::Nest(*j as int, Box::new(a@)));
                    assert(weight(p.1@) == iabs(*j as int) + weight(a@));
                    assert(iabs(xs@[0].0 as int) + list_weight(v) <= i64::MAX);
                }
                let ij = i + *j;
                let mut zs: Vec<(i64, DocCore)> = Vec::new();
                zs.push((ij, a.dup()));
                proof {
                    lemma_wl_view_index(zs@);
                    assert(wl_view(zs@) =~= seq![(ij as int, a@)]);
                }
                push_tail(&mut zs, xs, 1);
                proof {
                    assert(xs@.subrange(1, xs@.len() as int) =~= xs@.drop_first());
                    lemma_wl_view_index(xs@.drop_first());
                    assert(wl_view(xs@.drop_first()) =~= t);
                    assert(wl_view(zs@) == seq![(ij as int, a@)] + t);
                    lemma_list_size_append(seq![(ij as int, a@)], t);
                    lemma_list_weight_append(seq![(ij as int, a@)], t);
                    lemma_list_one((ij as int, a@));
                    lemma_wl_view_index(zs@);
                    assert forall|n: int| 0 <= n < zs@.len() implies iabs(
                        (#[trigger] zs@[n]).0 as int,
                    ) + list_weight(wl_view(zs@)) <= i64::MAX by {
                        if n == 0 {
                            assert(zs@[0].0 == ij);
                        } else {
                            assert(wl_view(zs@)[n] == t[n - 1]);
                            assert(zs@[n].0 as int == xs@[n].0 as int);
                            assert(iabs(xs@[n].0 as int) + list_weight(v) <= i64::MAX);
                        }
                    }
                    assert(wl_bounded(k as int, zs@));
                    assert(list_size(wl_view(zs@)) < list_size(v));
                }
                be(w, k, zs.as_slice())
            },
            DocCore::Text(s) => {
                let n_chars = s.as_str().unicode_len();
                proof {
                    assert(p.1@ == DocCoreV::Text(s@));
                    assert(weight(p.1@) == s@.len());
                }
                let k2 = k + n_chars as i64;
                let sub = slice_subrange(xs, 1, xs.len());
                proof {
                    lemma_wl_view_index(sub@);
                    assert(wl_view(sub@) =~= t);
                    assert forall|n: int| 0 <= n < sub@.len() implies iabs(
                        (#[trigger] sub@[n]).0 as int,
                    ) + list_weight(wl_view(sub@)) <= i64::MAX by {
                        assert(sub@[n] == xs@[n + 1]);
                        assert(iabs(xs@[n + 1].0 as int) + list_weight(v) <= i64::MAX);
                    }
                }
                let rest = be(w, k2, sub);
                Doc::Text(s.clone(), Box::new(rest))
            },
            DocCore::Line => {
                let sub = slice_subrange(xs, 1, xs.len());
                proof {
                    lemma_wl_view_index(sub@);
                    assert(wl_view(sub@) =~= t);
                    assert(iabs(xs@[0].0 as int) + list_weight(v) <= i64::MAX);
                    assert forall|n: int| 0 <= n < sub@.len() implies iabs(
                        (#[trigger] sub@[n]).0 as int,
                    ) + list_weight(wl_view(sub@)) <= i64::MAX by {
                        assert(sub@[n] == xs@[n + 1]);
                        assert(iabs(xs@[n + 1].0 as int) + list_weight(v) <= i64::MAX);
                    }
                }
                let rest = be(w, i, sub);
                Doc::Line(i, Box::new(rest))
            },
            DocCore::Union(a, b) => {
                proof {
                    assert(p.1@ == DocCoreV::Union(Box::new(a@), Box::new(b@)));
                }
                let mut zs1: Vec<(i64, DocCore)> = Vec::new();
                zs1.push((i, a.dup()));
                proof {
                    lemma_wl_view_index(zs1@);
                    assert(wl_view(zs1@) =~= seq![(i as int, a@)]);
                }
                push_tail(&mut zs1, xs, 1);
                let mut zs2: Vec<(i64, DocCore)> = Vec::new();
                zs2.push((i, b.dup()));
                proof {
                    lemma_wl_view_index(zs2@);
                    assert(wl_view(zs2@) =~= seq![(i as int, b@)]);
                }
                push_tail(&mut zs2, xs, 1);
                proof {
                    assert(xs@.subrange(1, xs@.len() as int) =~= xs@.drop_first());
                    lemma_wl_view_index(xs@.drop_first());
                    assert(wl_view(xs@.drop_first()) =~= t);
                    assert(wl_view(zs1@) == seq![(i as int, a@)] + t);
                    assert(wl_view(zs2@) == seq![(i as int, b@)] + t);
                    lemma_list_size_append(seq![(i as int, a@)], t);
                    lemma_list_weight_append(seq![(i as int, a@)], t);
                    lemma_list_one((i as int, a@));
                    lemma_list_size_append(seq![(i as int, b@)], t);
                    lemma_list_weight_append(seq![(i as int, b@)], t);
                    lemma_list_one((i as int, b@));
                    lemma_wl_view_index(zs1@);
                    lemma_wl_view_index(zs2@);
                    assert forall|n: int| 0 <= n < zs1@.len() implies iabs(
                        (#[trigger] zs1@[n]).0 as int,
                    ) + list_weight(wl_view(zs1@)) <= i64::MAX by {
                        if n == 0 {
                            assert(zs1@[0].0 == i);
                            assert(iabs(xs@[0].0 as int) + list_weight(v) <= i64::MAX);
                        } else {
                            assert(wl_view(zs1@)[n] == t[n - 1]);
                            assert(zs1@[n].0 as int == xs@[n].0 as int);
                            assert(iabs(xs@[n].0 as int) + list_weight(v) <= i64::MAX);
                        }
                    }
                    assert forall|n: int| 0 <= n < zs2@.len() implies iabs(
                        (#[trigger] zs2@[n]).0 as int,
                    ) + list_weight(wl_view(zs2@)) <= i64::MAX by {
                        if n == 0 {
                            assert(zs2@[0].0 == i);
                            assert(iabs(xs@[0].0 as int) + list_weight(v) <= i64::MAX);
                        } else {
                            assert(wl_view(zs2@)[n] == t[n - 1]);
                            assert(zs2@[n].0 as int == xs@[n].0 as int);
                            assert(iabs(xs@[n].0 as int) + list_weight(v) <= i64::MAX);
                        }
                    }
                    assert(wl_bounded(k as int, zs1@));
                    assert(wl_bounded(k as int, zs2@));
                    assert(list_size(wl_view(zs1@)) < list_size(v));
                    assert(list_size(wl_view(zs2@)) < list_size(v));
                }
                let r1 = be(w, k, zs1.as_slice());
                let r2 = be(w, k, zs2.as_slice());
                better(w, k, r1, r2)
            },
        }
    }
}

/// Resolve a whole document at column `k` under width `w`.
pub fn best(w: i64, k: i64, x: DocCore) -> (r: Doc)
    requires
        iabs(k as int) + weight(x@) <= i64::MAX,
    ensures
        r@ == best_m(w as int, k as int, x@),
{
    let mut zs: Vec<(i64, DocCore)> = Vec::new();
    let ghost xv = x@;
    zs.push((0, x));
    proof {
        lemma_wl_view_index(zs@);
        assert(wl_view(zs@) =~= seq![(0int, xv)]);
        lemma_list_one((0int, xv));
        assert(wl_bounded(k as int, zs@));
    }
    be(w, k, zs.as_slice())
}

/// Render the document: resolve its choices against the width, then lay
/// the result out as text. The width is the desired maximum line length;
/// a line may exceed it only where some single text fragment already does.
pub fn pretty(w: i64, x: DocCore) -> (r: String)
    requires
        weight(x@) <= i64::MAX,
    ensures
        r@ == pretty_m(w as int, x@),
{
    layout(best(w, 0, x))
}

} // verus!
