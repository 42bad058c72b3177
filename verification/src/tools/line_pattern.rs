//! Compiled regular expressions that remember the text they were compiled
//! from.
use vstd::prelude::*;

verus! {

#[verifier::external_type_specification]
#[verifier::external_body]
pub struct ExRegex(regex::Regex);

/// Names whether `regex::Regex::new` accepts `pattern`.
pub uninterp spec fn regex_compiles(pattern: Seq<char>) -> bool;

/// Names `Regex::is_match`: whether the expression `pattern` matches
/// somewhere in `haystack`.
pub uninterp spec fn regex_matches(pattern: Seq<char>, haystack: Seq<char>) -> bool;

/// Names the message of the error that `regex::Regex::new` gives for
/// `pattern` (its `to_string()`).
pub uninterp spec fn regex_error_text(pattern: Seq<char>) -> Seq<char>;

/// A compiled regular expression, with the text it was compiled from. It
/// is made only by `compile`, so the two always belong together.
pub struct LinePattern {
    re: regex::Regex,
    source: Ghost<Seq<char>>,
}

impl LinePattern {
    /// The text the expression was compiled from.
    pub closed spec fn source(&self) -> Seq<char> {
        self.source@
    }

    /// `regex::Regex::new` on `pattern`: the compiled expression, which
    /// remembers `pattern`, or the error's message.
    #[verifier::external_body]
    pub(crate) fn compile(pattern: &str) -> (res: Result<LinePattern, String>)
        ensures
            res is Ok <==> regex_compiles(pattern@),
            res matches Ok(p) ==> p.source() == pattern@,
            res matches Err(e) ==> e@ == regex_error_text(pattern@),
    {
        match regex::Regex::new(pattern) {
            Ok(re) => Ok(LinePattern { re, source: Ghost(pattern@) }),
            Err(e) => Err(e.to_string()),
        }
    }
}

/// `Regex::is_match` on the expression that `p` was compiled from.
#[verifier::external_body]
pub(crate) fn regex_is_match(p: &LinePattern, haystack: &str) -> (res: bool)
    ensures
        res == regex_matches(p.source(), haystack@),
{
    p.re.is_match(haystack)
}

} // verus!
