//! Rewriting text by a regular expression.

use vstd::prelude::*;

verus! {

/// Why `regex::Regex::new` refused a pattern. The library reads nothing of
/// it.
#[verifier::external_type_specification]
#[verifier::external_body]
pub struct ExPatternError(regex::Error);

/// Whether `regex::Regex::new` accepts the pattern.
pub uninterp spec fn pattern_compiles(pattern: Seq<char>) -> bool;

/// What `regex::Regex::replace_all` returns for a text, where the expression
/// was compiled from `pattern` and the replacement is `template`.
pub uninterp spec fn rewritten(pattern: Seq<char>, text: Seq<char>, template: Seq<char>) -> Seq<
    char,
>;

/// Compiles `pattern` with `regex::Regex::new` and replaces every
/// non-overlapping match in `text` with `regex::Regex::replace_all`, expanding
/// `$name` in `template` to the capture group of that name. The error is the
/// one that compiling gave. Both results depend on the arguments alone.
#[verifier::external_body]
pub(crate) fn rewrite(pattern: &str, text: &str, template: &str) -> (r: Result<
    String,
    regex::Error,
>)
    ensures
        r is Ok <==> pattern_compiles(pattern@),
        r matches Ok(s) ==> s@ == rewritten(pattern@, text@, template@),
{
    Ok(regex::Regex::new(pattern)?.replace_all(text, template).into_owned())
}

} // verus!
