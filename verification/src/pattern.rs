//! Rewriting by pattern. The patterns are `regex`'s; what this module states
//! of a rewriting is taken on trust from that crate.

use vstd::prelude::*;

verus! {

/// What replacing every match of `pattern` in `text` by `replacement` gives,
/// with the replacement's references to groups filled in; nothing where the
/// pattern is not one.
pub uninterp spec fn regex_replaced(
    pattern: Seq<char>,
    text: Seq<char>,
    replacement: Seq<char>,
) -> Option<Seq<char>>;

/// `Regex::new` and, on the pattern it hands back, `Regex::replace_all`: the
/// text with every match replaced, or nothing where `Regex::new` refuses the
/// pattern.
#[verifier::external_body]
pub(crate) fn regex_replace_all(pattern: &str, text: &str, replacement: &str) -> (r: Option<
    String,
>)
    ensures
        r is Some <==> regex_replaced(pattern@, text@, replacement@) is Some,
        r matches Some(s) ==> regex_replaced(pattern@, text@, replacement@) == Some(s@),
{
    match regex::Regex::new(pattern) {
        Ok(re) => Some(re.replace_all(text, replacement).into_owned()),
        Err(_) => None,
    }
}

/// The text after a rewriting: what the rewriting gave, or the text as it
/// was where the rewriting gave nothing.
pub open spec fn rewritten_or(text: Seq<char>, rewritten: Option<Seq<char>>) -> Seq<char> {
    match rewritten {
        Some(s) => s,
        None => text,
    }
}

/// Chooses between a rewriting's result and the text as it was.
pub fn rewritten_or_same(text: &str, rewritten: Option<String>) -> (r: String)
    ensures
        r@ == rewritten_or(
            text@,
            match rewritten {
                Some(s) => Some(s@),
                None => None,
            },
        ),
{
    match rewritten {
        Some(s) => s,
        None => text.to_owned(),
    }
}

} // verus!
