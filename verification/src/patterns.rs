//! The regular expressions of the library, evaluated by the `regex` crate.
use crate::text::collapse_ws_seq;
use vstd::prelude::*;

verus! {

/// Any character that is not a Unicode word character.
pub const NON_WORD_PATTERN: &'static str = "\\W";

/// Screening notes (subtitles, dubbing, voice-over) at the end of a title.
pub const TITLE_SUFFIX_PATTERN: &'static str = "(?iu)(?:[\\s\\-–:|/()]+(?:(?:film\\s+z\\s+napisami|z\\s+napisami|bez\\s+napisów|bez\\s+napisow|wersja\\s+oryginalna)|(?:(?:pl|en|ua|ukr|polski|polska|angielski|angielska|ukraiński|ukrainski|ukraińska|ukrainska|polish|english|ukrainian)\\s+)?(?:dubbing|dubbed|dubbingiem|lektor|napisy|napisami|subbed|subtitles?)))+$";

/// A run of Unicode whitespace.
pub const WHITESPACE_PATTERN: &'static str = "\\s+";

/// A placeholder of a URL template: a name in braces.
pub const TEMPLATE_PATTERN: &'static str = "\\{([^}]+)\\}";

/// The tenant id assigned in a Cinema City page script.
pub const TENANT_ID_PATTERN: &'static str = "tenantId\\s*=\\s*\"(?P<tenant_id>\\d+)\"";

/// A running time as Cinema City prints it: a number of minutes at the start.
pub const PLAY_LENGTH_PATTERN: &'static str = "^\\d+ min";

/// The patterns the library compiles; each is valid `regex` syntax.
pub open spec fn library_pattern(pattern: Seq<char>) -> bool {
    ||| pattern == NON_WORD_PATTERN@
    ||| pattern == TITLE_SUFFIX_PATTERN@
    ||| pattern == WHITESPACE_PATTERN@
    ||| pattern == TEMPLATE_PATTERN@
    ||| pattern == TENANT_ID_PATTERN@
    ||| pattern == PLAY_LENGTH_PATTERN@
}

/// What `Regex::new(pattern).replace_all(text, replacement)` returns.
pub uninterp spec fn regex_replace_all_result(pattern: Seq<char>, text: Seq<char>, replacement: Seq<char>) -> Seq<char>;

/// What `Regex::new(pattern).replace(text, replacement)` (first match only) returns.
pub uninterp spec fn regex_replace_first_result(pattern: Seq<char>, text: Seq<char>, replacement: Seq<char>) -> Seq<char>;

/// `regex::Regex::replace_all`: every non-overlapping match of `pattern` in `text` replaced
/// by `replacement`. The contract names the result; the regex semantics are not restated,
/// except for `\s+` replaced by a plain space: `\s` is the Unicode `White_Space` property
/// (the same set as `is_ws`), so each maximal run of whitespace becomes one space.
/// `Regex::new` fails only on invalid syntax, which the library's patterns do not have.
#[verifier::external_body]
pub(crate) fn regex_replace_all(pattern: &str, text: &str, replacement: &str) -> (r: String)
    requires
        library_pattern(pattern@),
    ensures
        r@ == regex_replace_all_result(pattern@, text@, replacement@),
        pattern@ == WHITESPACE_PATTERN@ && replacement@ == " "@ ==> r@ == collapse_ws_seq(text@),
{
    regex::Regex::new(pattern).unwrap().replace_all(text, replacement).into_owned()
}

/// `regex::Regex::replace`: the leftmost match of `pattern` in `text`, if any, replaced by
/// `replacement`. The contract names the result; the regex semantics are not restated.
#[verifier::external_body]
pub(crate) fn regex_replace_first(pattern: &str, text: &str, replacement: &str) -> (r: String)
    requires
        library_pattern(pattern@),
    ensures
        r@ == regex_replace_first_result(pattern@, text@, replacement@),
{
    regex::Regex::new(pattern).unwrap().replace(text, replacement).into_owned()
}

/// What `Regex::new(pattern).is_match(text)` returns.
pub uninterp spec fn regex_matches(pattern: Seq<char>, text: Seq<char>) -> bool;

/// What `Regex::new(pattern).captures_iter(text)` gives for capture group 1 of each match, in
/// order (an absent group as an empty text).
pub uninterp spec fn regex_first_groups(pattern: Seq<char>, text: Seq<char>) -> Seq<Seq<char>>;

/// What `Regex::new(pattern).captures(text)` gives for the group called `name` of the
/// leftmost match, if there is a match and the group took part in it.
pub uninterp spec fn regex_named_group(pattern: Seq<char>, text: Seq<char>, name: Seq<char>) -> Option<Seq<char>>;

/// `regex::Regex::is_match`. The contract names the result.
#[verifier::external_body]
pub(crate) fn regex_is_match(pattern: &str, text: &str) -> (r: bool)
    requires
        library_pattern(pattern@),
    ensures
        r == regex_matches(pattern@, text@),
{
    regex::Regex::new(pattern).unwrap().is_match(text)
}

/// `regex::Regex::captures_iter`, group 1 of each match. The contract names the result.
#[verifier::external_body]
pub(crate) fn regex_group_one_matches(pattern: &str, text: &str) -> (r: Vec<String>)
    requires
        library_pattern(pattern@),
    ensures
        r@.len() == regex_first_groups(pattern@, text@).len(),
        forall|i: int| 0 <= i < r@.len() ==> #[trigger] r@[i]@ == regex_first_groups(pattern@, text@)[i],
{
    regex::Regex::new(pattern)
        .unwrap()
        .captures_iter(text)
        .map(|captures| captures.get(1).map(|matched| matched.as_str()).unwrap_or_default().to_string())
        .collect()
}

/// `regex::Regex::captures` and `Captures::name`. The contract names the result.
#[verifier::external_body]
pub(crate) fn regex_named_capture(pattern: &str, text: &str, name: &str) -> (r: Option<String>)
    requires
        library_pattern(pattern@),
    ensures
        match r {
            Some(v) => regex_named_group(pattern@, text@, name@) == Some(v@),
            None => regex_named_group(pattern@, text@, name@) is None,
        },
{
    regex::Regex::new(pattern)
        .unwrap()
        .captures(text)
        .and_then(|captures| captures.name(name))
        .map(|matched| matched.as_str().to_string())
}

} // verus!
