//! Guarding the Markdown adapter: an image inside a link, a shape the
//! adapter cannot handle, is wrapped in backticks before parsing.

use vstd::prelude::*;

verus! {

/// The text with every match of the pattern, compiled in multi-line mode,
/// replaced by the replacement, where `$0` stands for the match.
pub uninterp spec fn regex_replaced(
    pattern: Seq<char>,
    text: Seq<char>,
    replacement: Seq<char>,
) -> Seq<char>;

/// Whether the pattern compiles in multi-line mode.
pub uninterp spec fn compiles_multiline(pattern: Seq<char>) -> bool;

/// Relies on `regex::RegexBuilder::build` in multi-line mode, which
/// succeeds or fails by the pattern alone, and `Regex::replace_all`, whose
/// result depends on the pattern, the text and the replacement alone.
#[verifier::external_body]
fn replace_all_multiline(pattern: &str, text: &str, replacement: &str) -> (r: Option<String>)
    ensures
        r is Some <==> compiles_multiline(pattern@),
        r matches Some(v) ==> v@ == regex_replaced(pattern@, text@, replacement@),
{
    match regex::RegexBuilder::new(pattern).multi_line(true).build() {
        Ok(re) => Some(re.replace_all(text, replacement).into_owned()),
        Err(_) => None,
    }
}

/// A link whose text holds an image: `[![alt](src) text](url)`.
pub const IMAGE_IN_LINK: &'static str = "\\[!\\[[^]]*\\]\\([^)]*\\)[^]]*\\]\\([^)]*\\)";

/// The whole match, in backticks.
pub const IN_BACKTICKS: &'static str = "`$0`";

/// Wraps every image-inside-link in backticks; the text is unchanged only
/// where the pattern fails to compile.
pub fn escape(s: &str) -> (r: String)
    ensures
        compiles_multiline(IMAGE_IN_LINK@) ==> r@ == regex_replaced(
            IMAGE_IN_LINK@,
            s@,
            IN_BACKTICKS@,
        ),
        !compiles_multiline(IMAGE_IN_LINK@) ==> r@ == s@,
{
    match replace_all_multiline(IMAGE_IN_LINK, s, IN_BACKTICKS) {
        Some(v) => v,
        None => s.to_string(),
    }
}

} // verus!
