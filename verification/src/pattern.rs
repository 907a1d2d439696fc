//! The key grammar, as a regular expression handed to the `regex` crate.

use vstd::prelude::*;

verus! {

/// The grammar of a key: an optional prefix of dot-separated DNS labels
/// (lower-case letters, digits and `-`, each label starting and ending with a
/// letter or digit) closed by `/`, then a name of 1 to 63 characters that
/// starts and ends with a letter or digit and may hold `-`, `_` and `.`
/// between them.
pub const LABELS_NAME_REGEX: &'static str =
    r"^([a-z0-9]([-a-z0-9]*[a-z0-9])?(\.[a-z0-9]([-a-z0-9]*[a-z0-9])?)*/)?[a-zA-Z0-9]([a-zA-Z0-9_.-]{0,61}[a-zA-Z0-9])?$";

/// A compiled expression of the `regex` crate, carried as an opaque value.
#[verifier::external_type_specification]
#[verifier::external_body]
pub struct ExRegex(regex::Regex);

/// The `regex` crate's reason for not compiling a pattern, carried as an
/// opaque value.
#[verifier::external_type_specification]
#[verifier::external_body]
pub struct ExRegexError(regex::Error);

/// The strings that a compiled expression matches: those on which
/// `regex::Regex::is_match` answers `true`.
pub uninterp spec fn matched_by(re: regex::Regex) -> Set<Seq<char>>;

/// The strings matched by the expression that `regex::Regex::new` compiles
/// from the text `pattern`.
pub uninterp spec fn language_of(pattern: Seq<char>) -> Set<Seq<char>>;

/// `regex::Regex::new` compiles a pattern with the default options. Assumed:
/// which strings the compiled expression matches depends on the pattern's
/// text alone. Nothing is assumed about which patterns compile.
pub assume_specification[ regex::Regex::new ](re: &str) -> (r: Result<regex::Regex, regex::Error>)
    ensures
        r matches Ok(compiled) ==> matched_by(compiled) == language_of(re@),
;

/// `regex::Regex::is_match` tells whether the expression matches somewhere
/// in `haystack`. Assumed: the answer depends on the compiled expression and
/// the haystack alone.
pub assume_specification[ regex::Regex::is_match ](
    re: &regex::Regex,
    haystack: &str,
) -> (r: bool)
    ensures
        r == matched_by(*re).contains(haystack@),
;

/// Whether `key` matches the key grammar.
pub open spec fn matches_grammar(key: Seq<char>) -> bool {
    language_of(LABELS_NAME_REGEX@).contains(key)
}

} // verus!
