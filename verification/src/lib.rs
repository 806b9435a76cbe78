use vstd::prelude::*;

pub mod events;
pub mod machine;
pub mod model;
pub mod pattern;
pub mod scan;
pub mod tokenizer;

verus! {

/// Why a scan aborted.
///
/// `PatternError`: the search pattern is not valid regular-expression syntax;
/// it is reported before any event of the input is consumed.
/// `ParseError`: the input stream does not conform to the expected structure
/// (ill-formed markup, a leaf element whose content is not a single text
/// event, or a stream that ends before its end-of-stream marker).
#[derive(Clone, Copy, Debug, PartialEq, Eq, Structural)]
pub enum ScanError {
    PatternError,
    ParseError,
}

} // verus!
