//! The mathematical model of documents and of the rendering pipeline.
//!
//! Every executable function of the crate is specified against the spec
//! functions in this module: `flatten_m` collapses potential line breaks
//! into spaces, `be_m`/`better_m`/`fits_m` resolve layout choices against
//! a width, and `layout_m` turns a resolved layout into text.

use vstd::prelude::*;

verus! {

/// The document algebra, unresolved: a tree of text fragments, optional
/// line breaks, indentation shifts, and alternative layouts.
pub ghost enum DocCoreV {
    /// The empty document, the identity of concatenation.
    Nil,
    /// Concatenation, left before right.
    Append(Box<DocCoreV>, Box<DocCoreV>),
    /// The inner document with line breaks indented this many more columns.
    Nest(int, Box<DocCoreV>),
    /// A literal run of characters, free of line breaks.
    Text(Seq<char>),
    /// Either a single space (when flattened) or a break to a new line.
    Line,
    /// A choice between two renderings of the same flattened content.
    Union(Box<DocCoreV>, Box<DocCoreV>),
}

/// A resolved layout: only text fragments and hard line breaks with a
/// fixed indentation remain.
pub ghost enum DocV {
    /// End of the layout.
    Nil,
    /// Emit the text, then continue.
    Text(Seq<char>, Box<DocV>),
    /// Emit a newline and that many spaces, then continue.
    Line(int, Box<DocV>),
}

/// Collapse every potential line break of a document into a single space,
/// taking the more horizontal branch of every choice.
pub open spec fn flatten_m(x: DocCoreV) -> DocCoreV
    decreases x,
{
    match x {
        DocCoreV::Nil => DocCoreV::Nil,
        DocCoreV::Append(a, b) => DocCoreV::Append(
            Box::new(flatten_m(*a)),
            Box::new(flatten_m(*b)),
        ),
        DocCoreV::Nest(i, a) => DocCoreV::Nest(i, Box::new(flatten_m(*a))),
        DocCoreV::Text(s) => DocCoreV::Text(s),
        DocCoreV::Line => DocCoreV::Text(seq![' ']),
        DocCoreV::Union(a, b) => flatten_m(*a),
    }
}

/// A choice between the flattened form of a document and the document
/// itself; the only way well-formed documents introduce `Union`.
pub open spec fn group_m(x: DocCoreV) -> DocCoreV {
    DocCoreV::Union(Box::new(flatten_m(x)), Box::new(x))
}

/// The number of nodes of a document; the termination measure of the
/// resolution engine.
pub open spec fn size(x: DocCoreV) -> nat
    decreases x,
{
    match x {
        DocCoreV::Nil => 1,
        DocCoreV::Append(a, b) => 1 + size(*a) + size(*b),
        DocCoreV::Nest(i, a) => 1 + size(*a),
        DocCoreV::Text(s) => 1,
        DocCoreV::Line => 1,
        DocCoreV::Union(a, b) => 1 + size(*a) + size(*b),
    }
}

/// The magnitude of an integer, as a natural number.
pub open spec fn iabs(i: int) -> nat {
    if i < 0 {
        (-i) as nat
    } else {
        i as nat
    }
}

/// How far a document can move the current column or indentation: the
/// total length of its text plus the magnitude of every nesting shift.
/// Used to bound the machine arithmetic of the resolution engine.
pub open spec fn weight(x: DocCoreV) -> nat
    decreases x,
{
    match x {
        DocCoreV::Nil => 0,
        DocCoreV::Append(a, b) => weight(*a) + weight(*b),
        DocCoreV::Nest(i, a) => iabs(i) + weight(*a),
        DocCoreV::Text(s) => s.len(),
        DocCoreV::Line => 0,
        DocCoreV::Union(a, b) => weight(*a) + weight(*b),
    }
}

/// Total node count of a worklist of indented documents.
pub open spec fn list_size(xs: Seq<(int, DocCoreV)>) -> nat
    decreases xs.len(),
{
    if xs.len() == 0 {
        0
    } else {
        size(xs[0].1) + list_size(xs.drop_first())
    }
}

/// Total weight of a worklist of indented documents.
pub open spec fn list_weight(xs: Seq<(int, DocCoreV)>) -> nat
    decreases xs.len(),
{
    if xs.len() == 0 {
        0
    } else {
        weight(xs[0].1) + list_weight(xs.drop_first())
    }
}

/// Node count distributes over worklist concatenation.
pub proof fn lemma_list_size_append(a: Seq<(int, DocCoreV)>, b: Seq<(int, DocCoreV)>)
    ensures
        list_size(a + b) == list_size(a) + list_size(b),
    decreases a.len(),
{
    if a.len() == 0 {
        assert(a + b =~= b);
    } else {
        assert((a + b).drop_first() =~= a.drop_first() + b);
        lemma_list_size_append(a.drop_first(), b);
    }
}

/// Weight distributes over worklist concatenation.
pub proof fn lemma_list_weight_append(a: Seq<(int, DocCoreV)>, b: Seq<(int, DocCoreV)>)
    ensures
        list_weight(a + b) == list_weight(a) + list_weight(b),
    decreases a.len(),
{
    if a.len() == 0 {
        assert(a + b =~= b);
    } else {
        assert((a + b).drop_first() =~= a.drop_first() + b);
        lemma_list_weight_append(a.drop_first(), b);
    }
}

/// Node count and weight of a one-entry worklist.
pub proof fn lemma_list_one(e: (int, DocCoreV))
    ensures
        list_size(seq![e]) == size(e.1),
        list_weight(seq![e]) == weight(e.1),
{
    assert(list_size(Seq::<(int, DocCoreV)>::empty()) == 0);
    assert(list_weight(Seq::<(int, DocCoreV)>::empty()) == 0);
    assert(seq![e].drop_first() =~= Seq::<(int, DocCoreV)>::empty());
    assert(seq![e][0] == e);
}

/// Node count and weight of a two-entry worklist.
pub proof fn lemma_list_two(e1: (int, DocCoreV), e2: (int, DocCoreV))
    ensures
        list_size(seq![e1, e2]) == size(e1.1) + size(e2.1),
        list_weight(seq![e1, e2]) == weight(e1.1) + weight(e2.1),
{
    lemma_list_one(e2);
    assert(seq![e1, e2].drop_first() =~= seq![e2]);
}

/// Whether a resolved layout can be emitted within the given remaining
/// width, looking no further than its first line break. A negative
/// remainder never fits; a line break always fits, since the next line
/// starts a fresh budget.
pub open spec fn fits_m(w: int, x: DocV) -> bool
    decreases x,
{
    if w < 0 {
        false
    } else {
        match x {
            DocV::Nil => true,
            DocV::Text(s, rest) => fits_m(w - s.len(), *rest),
            DocV::Line(i, rest) => true,
        }
    }
}

/// The greedy choice between two resolved layouts at column `k` under
/// width `w`: the first if it fits in the remaining space, else the second.
pub open spec fn better_m(w: int, k: int, x: DocV, y: DocV) -> DocV {
    if fits_m(w - k, x) {
        x
    } else {
        y
    }
}

/// Resolve a worklist of `(indentation, document)` pairs at column `k`
/// under width `w` into a choice-free layout. The head is rewritten step
/// by step: concatenations are flattened into the worklist, nesting
/// shifts the indentation, text advances the column, a line break resets
/// the column to its indentation, and a choice is resolved greedily with
/// `better_m`.
pub open spec fn be_m(w: int, k: int, xs: Seq<(int, DocCoreV)>) -> DocV
    decreases list_size(xs),
    via be_m_dec
{
    if xs.len() == 0 {
        DocV::Nil
    } else {
        let i = xs[0].0;
        let rest = xs.drop_first();
        match xs[0].1 {
            DocCoreV::Nil => be_m(w, k, rest),
            DocCoreV::Append(a, b) => be_m(w, k, seq![(i, *a), (i, *b)] + rest),
            DocCoreV::Nest(j, a) => be_m(w, k, seq![(i + j, *a)] + rest),
            DocCoreV::Text(s) => DocV::Text(s, Box::new(be_m(w, k + s.len(), rest))),
            DocCoreV::Line => DocV::Line(i, Box::new(be_m(w, i, rest))),
            DocCoreV::Union(a, b) => better_m(
                w,
                k,
                be_m(w, k, seq![(i, *a)] + rest),
                be_m(w, k, seq![(i, *b)] + rest),
            ),
        }
    }
}

#[via_fn]
proof fn be_m_dec(w: int, k: int, xs: Seq<(int, DocCoreV)>) {
    if xs.len() > 0 {
        let i = xs[0].0;
        let rest = xs.drop_first();
        match xs[0].1 {
            DocCoreV::Append(a, b) => {
                lemma_list_size_append(seq![(i, *a), (i, *b)], rest);
                assert(list_size(Seq::<(int, DocCoreV)>::empty()) == 0);
                assert(seq![(i, *b)].drop_first() =~= Seq::<(int, DocCoreV)>::empty());
                assert(list_size(seq![(i, *b)]) == size(*b));
                assert(seq![(i, *a), (i, *b)].drop_first() =~= seq![(i, *b)]);
                assert(list_size(seq![(i, *a), (i, *b)]) == size(*a) + size(*b));
            },
            DocCoreV::Nest(j, a) => {
                lemma_list_size_append(seq![(i + j, *a)], rest);
                assert(list_size(Seq::<(int, DocCoreV)>::empty()) == 0);
                assert(seq![(i + j, *a)].drop_first() =~= Seq::<(int, DocCoreV)>::empty());
                assert(list_size(seq![(i + j, *a)]) == size(*a));
            },
            DocCoreV::Union(a, b) => {
                lemma_list_size_append(seq![(i, *a)], rest);
                lemma_list_size_append(seq![(i, *b)], rest);
                assert(seq![(i, *a)].drop_first() =~= Seq::<(int, DocCoreV)>::empty());
                assert(seq![(i, *b)].drop_first() =~= Seq::<(int, DocCoreV)>::empty());
            },
            _ => {},
        }
    }
}

/// Resolve a whole document at column `k` under width `w`.
pub open spec fn best_m(w: int, k: int, x: DocCoreV) -> DocV {
    be_m(w, k, seq![(0, x)])
}

/// The given sequence repeated `n` times, empty when `n` is not positive.
pub open spec fn repeat_m(s: Seq<char>, n: int) -> Seq<char>
    decreases n,
{
    if n <= 0 {
        Seq::empty()
    } else {
        s + repeat_m(s, n - 1)
    }
}

/// Repetition grows one copy at a time, appended on the right.
pub proof fn lemma_repeat_snoc(s: Seq<char>, n: int)
    requires
        n >= 0,
    ensures
        repeat_m(s, n + 1) == repeat_m(s, n) + s,
    decreases n,
{
    if n == 0 {
        assert(repeat_m(s, 1) =~= repeat_m(s, 0) + s);
    } else {
        lemma_repeat_snoc(s, n - 1);
        assert(s + (repeat_m(s, n - 1) + s) =~= (s + repeat_m(s, n - 1)) + s);
    }
}

/// The text of a resolved layout: text fragments verbatim, each line
/// break a newline followed by one space per indentation column.
pub open spec fn layout_m(x: DocV) -> Seq<char>
    decreases x,
{
    match x {
        DocV::Nil => Seq::empty(),
        DocV::Text(s, rest) => s + layout_m(*rest),
        DocV::Line(i, rest) => seq!['\n'] + repeat_m(seq![' '], i) + layout_m(*rest),
    }
}

/// The rendered text of a document under the given width.
pub open spec fn pretty_m(w: int, x: DocCoreV) -> Seq<char> {
    layout_m(best_m(w, 0, x))
}

/// A right fold of a binary joiner over a sequence of documents: empty
/// gives the empty document, a singleton is returned unchanged.
pub open spec fn fold_m(
    g: spec_fn(DocCoreV, DocCoreV) -> DocCoreV,
    xs: Seq<DocCoreV>,
) -> DocCoreV
    decreases xs.len(),
{
    if xs.len() == 0 {
        DocCoreV::Nil
    } else if xs.len() == 1 {
        xs[0]
    } else {
        g(xs[0], fold_m(g, xs.drop_first()))
    }
}

/// Two documents joined by a single space.
pub open spec fn space_m(x: DocCoreV, y: DocCoreV) -> DocCoreV {
    DocCoreV::Append(
        Box::new(x),
        Box::new(DocCoreV::Append(Box::new(DocCoreV::Text(seq![' '])), Box::new(y))),
    )
}

/// Two documents joined by a line break.
pub open spec fn newline_m(x: DocCoreV, y: DocCoreV) -> DocCoreV {
    DocCoreV::Append(
        Box::new(x),
        Box::new(DocCoreV::Append(Box::new(DocCoreV::Line), Box::new(y))),
    )
}

/// Two documents joined by "a space, or else a line break": the joiner
/// of word wrapping, reconsidered independently at every adjacent pair.
pub open spec fn space_newline_m(x: DocCoreV, y: DocCoreV) -> DocCoreV {
    DocCoreV::Append(
        Box::new(x),
        Box::new(DocCoreV::Append(
            Box::new(DocCoreV::Union(Box::new(DocCoreV::Text(seq![' '])), Box::new(DocCoreV::Line))),
            Box::new(y),
        )),
    )
}

/// The space joiner as a value, for folding.
pub open spec fn space_f() -> spec_fn(DocCoreV, DocCoreV) -> DocCoreV {
    |x: DocCoreV, y: DocCoreV| space_m(x, y)
}

/// The line-break joiner as a value, for folding.
pub open spec fn newline_f() -> spec_fn(DocCoreV, DocCoreV) -> DocCoreV {
    |x: DocCoreV, y: DocCoreV| newline_m(x, y)
}

/// The space-or-break joiner as a value, for folding.
pub open spec fn space_newline_f() -> spec_fn(DocCoreV, DocCoreV) -> DocCoreV {
    |x: DocCoreV, y: DocCoreV| space_newline_m(x, y)
}

/// Documents joined by spaces.
pub open spec fn spread_m(xs: Seq<DocCoreV>) -> DocCoreV {
    fold_m(space_f(), xs)
}

/// Documents joined by line breaks.
pub open spec fn stack_m(xs: Seq<DocCoreV>) -> DocCoreV {
    fold_m(newline_f(), xs)
}

/// The canonical "open, indented body, close" layout: on one line when it
/// fits, otherwise broken after the opener with the body indented by two.
pub open spec fn bracket_m(l: Seq<char>, x: DocCoreV, r: Seq<char>) -> DocCoreV {
    group_m(DocCoreV::Append(
        Box::new(DocCoreV::Text(l)),
        Box::new(DocCoreV::Append(
            Box::new(DocCoreV::Nest(2, Box::new(DocCoreV::Append(Box::new(DocCoreV::Line), Box::new(x))))),
            Box::new(DocCoreV::Append(Box::new(DocCoreV::Line), Box::new(DocCoreV::Text(r)))),
        )),
    ))
}

/// Split on single spaces, the piece gathered so far in `cur`: every
/// space ends a piece, so adjacent spaces yield empty pieces and the
/// empty input yields one empty piece.
pub open spec fn split_rec(s: Seq<char>, cur: Seq<char>) -> Seq<Seq<char>>
    decreases s.len(),
{
    if s.len() == 0 {
        seq![cur]
    } else if s[0] == ' ' {
        seq![cur] + split_rec(s.drop_first(), Seq::empty())
    } else {
        split_rec(s.drop_first(), cur.push(s[0]))
    }
}

/// The pieces of a character sequence split on single spaces.
pub open spec fn split_m(s: Seq<char>) -> Seq<Seq<char>> {
    split_rec(s, Seq::empty())
}

/// A run of characters as a document, as a value, for mapping.
pub open spec fn text_f() -> spec_fn(Seq<char>) -> DocCoreV {
    |w: Seq<char>| DocCoreV::Text(w)
}

/// The words of the text joined by space-or-break joiners: word wrap.
pub open spec fn fill_words_m(s: Seq<char>) -> DocCoreV {
    fold_m(space_newline_f(), split_m(s).map_values(text_f()))
}

/// Interleave documents with choices between "flatten this element and
/// continue filling the flattened tail on this line" and "keep it as is
/// and break to a new line", pairwise down the sequence.
pub open spec fn fill_m(xs: Seq<DocCoreV>) -> DocCoreV
    decreases xs.len(),
{
    if xs.len() == 0 {
        DocCoreV::Nil
    } else if xs.len() == 1 {
        xs[0]
    } else {
        DocCoreV::Union(
            Box::new(space_m(flatten_m(xs[0]), fill_m(seq![flatten_m(xs[1])] + xs.skip(2)))),
            Box::new(newline_m(xs[0], fill_m(seq![xs[1]] + xs.skip(2)))),
        )
    }
}

} // verus!
