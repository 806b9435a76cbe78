use vstd::prelude::*;
use crate::ScanError;

verus! {

/// Whether a string is valid regular-expression syntax. The regex crate
/// decides this; the answer depends on the pattern string alone.
pub uninterp spec fn regex_valid(pattern: Seq<char>) -> bool;

/// Whether the regular expression `pattern` matches anywhere inside `text`
/// (substring search: no anchoring to the start or end of the text). The
/// regex crate decides this; the answer depends on the two strings alone.
pub uninterp spec fn regex_match(pattern: Seq<char>, text: Seq<char>) -> bool;

/// The regex crate's compiled regular expression, carried opaquely.
#[verifier::external_type_specification]
#[verifier::external_body]
pub struct ExRegex(regex::Regex);

/// A compiled search pattern: the regex crate's compiled expression together
/// with the pattern string it was compiled from (kept in ghost form). The
/// fields are private and `Pattern::compile` is the only constructor, so the
/// expression is always the one compiled from `src()`.
pub struct Pattern {
    re: regex::Regex,
    src: Ghost<Seq<char>>,
}

/// Relies on regex::Regex::new: it returns Ok exactly when the pattern is
/// valid regular-expression syntax, and its outcome depends on the pattern
/// string alone.
#[verifier::external_body]
fn regex_new(pattern: &str) -> (r: Option<regex::Regex>)
    ensures
        r is Some <==> regex_valid(pattern@),
{
    regex::Regex::new(pattern).ok()
}

/// Relies on regex::Regex::is_match: it returns true exactly when the
/// compiled expression matches somewhere inside `text`, and its outcome
/// depends on the expression and the text alone. The contract speaks of the
/// pattern string `p.src()` because `p.re` is always the expression compiled
/// from it (see `Pattern`).
#[verifier::external_body]
fn regex_is_match(p: &Pattern, text: &str) -> (r: bool)
    ensures
        r == regex_match(p.src(), text@),
{
    p.re.is_match(text)
}

impl Pattern {
    /// The pattern string this value was compiled from.
    pub closed spec fn src(self) -> Seq<char> {
        self.src@
    }

    /// Compiles a search pattern. Returns `PatternError` exactly when the
    /// pattern is not valid regular-expression syntax; no input is touched.
    pub fn compile(pattern: &str) -> (r: Result<Pattern, ScanError>)
        ensures
            r is Ok <==> regex_valid(pattern@),
            r matches Ok(p) ==> p.src() == pattern@,
            r matches Err(e) ==> e == ScanError::PatternError,
    {
        match regex_new(pattern) {
            Some(re) => Ok(Pattern { re, src: Ghost(pattern@) }),
            None => Err(ScanError::PatternError),
        }
    }

    /// Whether this pattern matches anywhere inside `text`.
    pub fn is_match(&self, text: &str) -> (r: bool)
        ensures
            r == regex_match(self.src(), text@),
    {
        regex_is_match(self, text)
    }
}

} // verus!
