//! Keeping only the letters of a name, with `regex`.
use vstd::prelude::*;

verus! {

#[verifier::external_type_specification]
#[verifier::external_body]
pub struct ExRegexError(regex::Error);

/// What `regex::Regex::new(pattern)` followed by `replace_all(text, rep)` hands back.
pub uninterp spec fn regex_replaced(pattern: Seq<char>, text: Seq<char>, rep: Seq<char>) -> Seq<char>;

/// The characters that an election identifier keeps of a domain name: ASCII letters and `â`.
pub open spec fn is_name_letter(c: char) -> bool {
    ('A' <= c <= 'Z') || ('a' <= c <= 'z') || c == 'â'
}

/// Compiles `pattern` with `regex::Regex::new` and replaces every match in `text` by `rep`
/// with `replace_all`. Trusted: on success the result is `regex_replaced(pattern, text, rep)`;
/// for the one-character class `[^A-Za-zâ]` (any character but an ASCII letter or `â`) and
/// an empty replacement, compiling succeeds and every character outside the class is kept,
/// each match being a single such character that is removed.
#[verifier::external_body]
pub(crate) fn regex_replace_all(pattern: &str, text: &str, rep: &str) -> (res: Result<String, regex::Error>)
    ensures
        res matches Ok(s) ==> s@ == regex_replaced(pattern@, text@, rep@),
        res is Ok <== pattern@ == "[^A-Za-zâ]"@ && rep@ == ""@,
        res matches Ok(s) ==> (pattern@ == "[^A-Za-zâ]"@ && rep@ == ""@ ==> s@ == text@.filter(
            |c: char| is_name_letter(c),
        )),
{
    Ok(regex::Regex::new(pattern)?.replace_all(text, rep).into_owned())
}

} // verus!
