//! Derived combinators: joiners, folds, bracketing and word wrap, all
//! expressed through the primitive constructors.

use vstd::prelude::*;
use vstd::slice::slice_index_get;
use vstd::slice::slice_subrange;
use vstd::string::StrSliceExecFns;

use crate::doc::DocCore;
use crate::doc::append;
use crate::doc::flatten;
use crate::doc::group;
use crate::doc::line;
use crate::doc::nest;
use crate::doc::nil;
use crate::doc::text;
use crate::model::DocCoreV;
use crate::model::bracket_m;
use crate::model::fill_m;
use crate::model::fill_words_m;
use crate::model::flatten_m;
use crate::model::fold_m;
use crate::model::newline_f;
use crate::model::newline_m;
use crate::model::space_f;
use crate::model::space_m;
use crate::model::space_newline_f;
use crate::model::space_newline_m;
use crate::model::split_m;
use crate::model::split_rec;
use crate::model::spread_m;
use crate::model::stack_m;
use crate::model::text_f;

verus! {

/// The models of a sequence of documents, in order.
pub open spec fn docs_view(xs: Seq<DocCore>) -> Seq<DocCoreV> {
    xs.map_values(|d: DocCore| d@)
}

/// The model of a document sequence is the model of its entries.
pub proof fn lemma_docs_view_index(xs: Seq<DocCore>)
    ensures
        docs_view(xs).len() == xs.len(),
        forall|n: int| 0 <= n < xs.len() ==> docs_view(xs)[n] == (#[trigger] xs[n])@,
{
}

/// Two documents joined by a single space.
pub fn space(x: DocCore, y: DocCore) -> (r: DocCore)
    ensures
        r@ == space_m(x@, y@),
{
    proof {
        reveal_strlit(" ");
        assert(" "@ =~= seq![' ']);
    }
    append(x, append(text(" ".to_owned()), y))
}

/// Two documents joined by a line break.
pub fn newline(x: DocCore, y: DocCore) -> (r: DocCore)
    ensures
        r@ == newline_m(x@, y@),
{
    append(x, append(line(), y))
}

/// Two documents joined by "a space, or else a line break": the joiner
/// of word wrap, decided independently at every adjacent pair.
pub fn space_newline(x: DocCore, y: DocCore) -> (r: DocCore)
    ensures
        r@ == space_newline_m(x@, y@),
{
    proof {
        reveal_strlit(" ");
        assert(" "@ =~= seq![' ']);
    }
    let sp = text(" ".to_owned());
    append(x, append(DocCore::Union(Box::new(sp), Box::new(line())), y))
}

/// A right fold of the binary joiner `f` over the documents: the empty
/// sequence gives the empty document, a singleton is returned unchanged.
/// `g` is the joiner's effect on models: every result of `f` must model
/// `g` of its arguments' models.
pub fn fold_doc<F: Fn(DocCore, DocCore) -> DocCore>(
    f: &F,
    xs: &[DocCore],
    g: Ghost<spec_fn(DocCoreV, DocCoreV) -> DocCoreV>,
) -> (r: DocCore)
    requires
        forall|x: DocCore, y: DocCore| call_requires(*f, (x, y)),
        forall|x: DocCore, y: DocCore, o: DocCore|
            call_ensures(*f, (x, y), o) ==> o@ == g@(x@, y@),
    ensures
        r@ == fold_m(g@, docs_view(xs@)),
    decreases xs@.len(),
{
    proof {
        lemma_docs_view_index(xs@);
    }
    if xs.len() == 0 {
        nil()
    } else if xs.len() == 1 {
        slice_index_get(xs, 0).dup()
    } else {
        let sub = slice_subrange(xs, 1, xs.len());
        let rest = fold_doc(f, sub, g);
        proof {
            lemma_docs_view_index(sub@);
            assert(docs_view(sub@) =~= docs_view(xs@).drop_first());
        }
        let head = slice_index_get(xs, 0).dup();
        (*f)(head, rest)
    }
}

/// Documents joined by spaces.
pub fn spread(xs: &[DocCore]) -> (r: DocCore)
    ensures
        r@ == spread_m(docs_view(xs@)),
{
    fold_doc(&space, xs, Ghost(space_f()))
}

/// Documents joined by line breaks.
pub fn stack(xs: &[DocCore]) -> (r: DocCore)
    ensures
        r@ == stack_m(docs_view(xs@)),
{
    fold_doc(&newline, xs, Ghost(newline_f()))
}

/// The canonical "open, indented body, close" layout: one line when it
/// fits, else broken after the opener with the body indented by two
/// columns and the closer back on its own line.
pub fn bracket(l: String, x: DocCore, r: String) -> (res: DocCore)
    ensures
        res@ == bracket_m(l@, x@, r@),
{
    group(append(text(l), append(nest(2, append(line(), x)), append(line(), text(r)))))
}

/// Copy the documents of `xs` from position `from` on onto the end of `zs`.
fn push_docs(zs: &mut Vec<DocCore>, xs: &[DocCore], from: usize)
    requires
        from <= xs@.len(),
    ensures
        docs_view(final(zs)@) == docs_view(old(zs)@) + docs_view(
            xs@.subrange(from as int, xs@.len() as int),
        ),
{
    let mut n = from;
    while n < xs.len()
        invariant
            from <= n <= xs@.len(),
            docs_view(zs@) == docs_view(old(zs)@) + docs_view(xs@.subrange(from as int, n as int)),
        decreases xs@.len() - n,
    {
        let d = slice_index_get(xs, n).dup();
        let ghost pre = zs@;
        zs.push(d);
        proof {
            lemma_docs_view_index(pre);
            lemma_docs_view_index(zs@);
            lemma_docs_view_index(old(zs)@);
            lemma_docs_view_index(xs@.subrange(from as int, n as int));
            lemma_docs_view_index(xs@.subrange(from as int, n as int + 1));
            assert(docs_view(zs@) =~= docs_view(old(zs)@) + docs_view(
                xs@.subrange(from as int, n as int + 1),
            ));
        }
        n = n + 1;
    }
    proof {
        assert(xs@.subrange(from as int, n as int) =~= xs@.subrange(from as int, xs@.len() as int));
    }
}

/// Word wrap over documents: at every adjacent pair, a choice between
/// flattening the left element and filling the flattened tail on the
/// same line, and keeping the element as it is with a line break after it.
pub fn fill(xs: &[DocCore]) -> (r: DocCore)
    ensures
        r@ == fill_m(docs_view(xs@)),
    decreases xs@.len(),
{
    proof {
        lemma_docs_view_index(xs@);
    }
    if xs.len() == 0 {
        nil()
    } else if xs.len() == 1 {
        slice_index_get(xs, 0).dup()
    } else {
        let x = slice_index_get(xs, 0);
        let y = slice_index_get(xs, 1);
        let mut fl: Vec<DocCore> = Vec::new();
        fl.push(flatten(y.dup()));
        push_docs(&mut fl, xs, 2);
        let mut pl: Vec<DocCore> = Vec::new();
        pl.push(y.dup());
        push_docs(&mut pl, xs, 2);
        proof {
            lemma_docs_view_index(fl@);
            lemma_docs_view_index(pl@);
            lemma_docs_view_index(xs@.subrange(2, xs@.len() as int));
            assert(docs_view(fl@) =~= seq![flatten_m(xs@[1]@)] + docs_view(xs@).skip(2));
            assert(docs_view(pl@) =~= seq![xs@[1]@] + docs_view(xs@).skip(2));
        }
        let left = space(flatten(x.dup()), fill(fl.as_slice()));
        let right = newline(x.dup(), fill(pl.as_slice()));
        DocCore::Union(Box::new(left), Box::new(right))
    }
}

/// Split the text on single spaces and join the words with
/// space-or-break joiners: run-time word wrap.
pub fn fill_words(s: String) -> (r: DocCore)
    ensures
        r@ == fill_words_m(s@),
{
    let st = s.as_str();
    let n = st.unicode_len();
    let mut words: Vec<DocCore> = Vec::new();
    let ghost mut found: Seq<Seq<char>> = Seq::empty();
    let mut start: usize = 0;
    let mut idx: usize = 0;
    proof {
        assert(s@.skip(0) =~= s@);
        assert(s@.subrange(0, 0) =~= Seq::<char>::empty());
        assert(docs_view(words@) =~= Seq::<DocCoreV>::empty());
        assert(found.map_values(text_f()) =~= Seq::<DocCoreV>::empty());
    }
    while idx < n
        invariant
            start <= idx <= n,
            n == s@.len(),
            st@ == s@,
            split_m(s@) == found + split_rec(
                s@.skip(idx as int),
                s@.subrange(start as int, idx as int),
            ),
            docs_view(words@) == found.map_values(text_f()),
        decreases n - idx,
    {
        let c = st.get_char(idx);
        let ghost cur = s@.subrange(start as int, idx as int);
        proof {
            assert(s@.skip(idx as int)[0] == s@[idx as int]);
            assert(s@.skip(idx as int).drop_first() =~= s@.skip(idx as int + 1));
        }
        if c == ' ' {
            let w = st.substring_char(start, idx).to_owned();
            let ghost pre = words@;
            words.push(text(w));
            proof {
                assert(split_rec(s@.skip(idx as int), cur) == seq![cur] + split_rec(
                    s@.skip(idx as int + 1),
                    Seq::empty(),
                ));
                assert(found + (seq![cur] + split_rec(s@.skip(idx as int + 1), Seq::empty()))
                    =~= (found + seq![cur]) + split_rec(s@.skip(idx as int + 1), Seq::empty()));
                found = found + seq![cur];
                assert(s@.subrange(idx as int + 1, idx as int + 1) =~= Seq::<char>::empty());
                lemma_docs_view_index(pre);
                lemma_docs_view_index(words@);
                assert(docs_view(words@) =~= found.map_values(text_f()));
            }
            start = idx + 1;
        } else {
            proof {
                assert(cur.push(s@[idx as int]) =~= s@.subrange(start as int, idx as int + 1));
            }
        }
        idx = idx + 1;
    }
    let w = st.substring_char(start, n).to_owned();
    let ghost pre = words@;
    let ghost cur = s@.subrange(start as int, n as int);
    words.push(text(w));
    proof {
        assert(s@.skip(n as int).len() == 0);
        assert(split_rec(s@.skip(n as int), cur) == seq![cur]);
        found = found + seq![cur];
        assert(found =~= split_m(s@));
        lemma_docs_view_index(pre);
        lemma_docs_view_index(words@);
        assert(docs_view(words@) =~= split_m(s@).map_values(text_f()));
    }
    fold_doc(&space_newline, words.as_slice(), Ghost(space_newline_f()))
}

} // verus!
