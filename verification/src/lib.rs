//! A pretty-printing engine over a small document algebra.
//!
//! A document describes structured text with optional line breaks,
//! indentation, and alternative layouts. Rendering picks concrete line
//! breaks so that output stays within a target width whenever an
//! alternative that fits exists, falling back to the broken layout
//! otherwise.

pub mod combinators;
pub mod doc;
pub mod engine;
pub mod laws;
pub mod model;

pub use combinators::bracket;
pub use combinators::fill;
pub use combinators::fill_words;
pub use combinators::fold_doc;
pub use combinators::newline;
pub use combinators::space;
pub use combinators::space_newline;
pub use combinators::spread;
pub use combinators::stack;
pub use doc::Doc;
pub use doc::DocCore;
pub use doc::append;
pub use doc::flatten;
pub use doc::group;
pub use doc::nest;
pub use doc::nil;
pub use doc::text;
pub use engine::be;
pub use engine::best;
pub use engine::better;
pub use engine::copy;
pub use engine::fits;
pub use engine::layout;
pub use engine::pretty;
pub use model::DocCoreV;
pub use model::DocV;
