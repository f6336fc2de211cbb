//! The document types and their constructors, and flattening.

use vstd::prelude::*;

use crate::model::DocCoreV;
use crate::model::DocV;
use crate::model::flatten_m;
use crate::model::group_m;

verus! {

/// The document algebra: an immutable tree built bottom-up by the
/// constructors below. Its model is `DocCoreV`.
#[derive(Debug, PartialEq)]
pub enum DocCore {
    /// The empty document, the identity of concatenation.
    Nil,
    /// Concatenation, left before right.
    Append(Box<DocCore>, Box<DocCore>),
    /// The inner document with line breaks indented this many more columns.
    Nest(i64, Box<DocCore>),
    /// A literal run of characters, free of line breaks.
    Text(String),
    /// Either a single space (when flattened) or a break to a new line.
    Line,
    /// A choice between two renderings of the same flattened content.
    Union(Box<DocCore>, Box<DocCore>),
}

/// A resolved layout: text and hard line breaks with fixed indentation.
/// Its model is `DocV`.
#[derive(Debug, PartialEq)]
pub enum Doc {
    /// End of the layout.
    Nil,
    /// Emit the text, then continue.
    Text(String, Box<Doc>),
    /// Emit a newline and that many spaces, then continue.
    Line(i64, Box<Doc>),
}

/// The model of a document value.
pub open spec fn core_view(d: DocCore) -> DocCoreV
    decreases d,
{
    match d {
        DocCore::Nil => DocCoreV::Nil,
        DocCore::Append(a, b) => DocCoreV::Append(Box::new(core_view(*a)), Box::new(core_view(*b))),
        DocCore::Nest(i, a) => DocCoreV::Nest(i as int, Box::new(core_view(*a))),
        DocCore::Text(s) => DocCoreV::Text(s.view()),
        DocCore::Line => DocCoreV::Line,
        DocCore::Union(a, b) => DocCoreV::Union(Box::new(core_view(*a)), Box::new(core_view(*b))),
    }
}

/// The model of a resolved layout value.
pub open spec fn doc_view(d: Doc) -> DocV
    decreases d,
{
    match d {
        Doc::Nil => DocV::Nil,
        Doc::Text(s, rest) => DocV::Text(s.view(), Box::new(doc_view(*rest))),
        Doc::Line(i, rest) => DocV::Line(i as int, Box::new(doc_view(*rest))),
    }
}

impl View for DocCore {
    type V = DocCoreV;

    open spec fn view(&self) -> DocCoreV {
        core_view(*self)
    }
}

impl View for Doc {
    type V = DocV;

    open spec fn view(&self) -> DocV {
        doc_view(*self)
    }
}

impl DocCore {
    /// A structural copy: documents are immutable values, so subtrees are
    /// rebuilt verbatim wherever one is needed in two places.
    pub fn dup(&self) -> (r: DocCore)
        ensures
            r@ == self@,
        decreases self,
    {
        match self {
            DocCore::Nil => DocCore::Nil,
            DocCore::Append(a, b) => DocCore::Append(Box::new(a.dup()), Box::new(b.dup())),
            DocCore::Nest(i, a) => DocCore::Nest(*i, Box::new(a.dup())),
            DocCore::Text(s) => DocCore::Text(s.clone()),
            DocCore::Line => DocCore::Line,
            DocCore::Union(a, b) => DocCore::Union(Box::new(a.dup()), Box::new(b.dup())),
        }
    }
}

/// The empty document.
pub fn nil() -> (r: DocCore)
    ensures
        r@ == DocCoreV::Nil,
{
    DocCore::Nil
}

/// Concatenation of two documents, in that order.
pub fn append(x: DocCore, y: DocCore) -> (r: DocCore)
    ensures
        r@ == DocCoreV::Append(Box::new(x@), Box::new(y@)),
{
    DocCore::Append(Box::new(x), Box::new(y))
}

/// The document with its line breaks indented `i` additional columns.
pub fn nest(i: i64, x: DocCore) -> (r: DocCore)
    ensures
        r@ == DocCoreV::Nest(i as int, Box::new(x@)),
{
    DocCore::Nest(i, Box::new(x))
}

/// A literal run of characters; it must contain no line breaks.
pub fn text(s: String) -> (r: DocCore)
    ensures
        r@ == DocCoreV::Text(s@),
{
    DocCore::Text(s)
}

/// A potential line break: a space when flattened, else a break to a new
/// line indented to the current nesting level.
pub fn line() -> (r: DocCore)
    ensures
        r@ == DocCoreV::Line,
{
    DocCore::Line
}

/// Collapse every potential line break into a single space, taking the
/// more horizontal branch of every choice.
pub fn flatten(x: DocCore) -> (r: DocCore)
    ensures
        r@ == flatten_m(x@),
    decreases x,
{
    match x {
        DocCore::Nil => DocCore::Nil,
        DocCore::Append(a, b) => DocCore::Append(Box::new(flatten(*a)), Box::new(flatten(*b))),
        DocCore::Nest(i, a) => DocCore::Nest(i, Box::new(flatten(*a))),
        DocCore::Text(s) => DocCore::Text(s),
        DocCore::Line => {
            proof {
                reveal_strlit(" ");
                assert(" "@ =~= seq![' ']);
            }
            DocCore::Text(" ".to_owned())
        },
        DocCore::Union(a, b) => flatten(*a),
    }
}

/// Render the document on one line if it fits, else fall back to its own
/// layout: a choice between the flattened document and the document itself.
pub fn group(x: DocCore) -> (r: DocCore)
    ensures
        r@ == group_m(x@),
{
    let f = flatten(x.dup());
    DocCore::Union(Box::new(f), Box::new(x))
}

} // verus!
