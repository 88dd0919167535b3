//! Regular expressions.

use vstd::prelude::*;

verus! {

/// The errors of the `regex` crate.
#[verifier::external_type_specification]
#[verifier::external_body]
pub struct ExRegexError(regex::Error);

/// Characters with a meaning of their own in a regular expression.
pub open spec fn is_meta(c: char) -> bool {
    c == '\\' || c == '.' || c == '+' || c == '*' || c == '?' || c == '(' || c == ')' || c == '|'
        || c == '[' || c == ']' || c == '{' || c == '}' || c == '^' || c == '$' || c == '#' || c
        == '&' || c == '-' || c == '~'
}

/// The text with a backslash before each character that has a meaning of its own.
pub open spec fn escaped(text: Seq<char>) -> Seq<char>
    decreases text.len(),
{
    if text.len() == 0 {
        text
    } else if is_meta(text.last()) {
        escaped(text.drop_last()).push('\\').push(text.last())
    } else {
        escaped(text.drop_last()).push(text.last())
    }
}

/// The texts of the named groups in the leftmost match of a regular expression: `None` where the
/// expression does not compile, `Some(None)` where nothing matches. A group that took no part in
/// the match, or that the expression does not have, has no text.
pub uninterp spec fn regex_groups(
    pattern: Seq<char>,
    text: Seq<char>,
    names: Seq<Seq<char>>,
) -> Option<Option<Seq<Option<Seq<char>>>>>;

/// The contents of texts.
pub open spec fn contents(texts: Seq<&str>) -> Seq<Seq<char>> {
    Seq::new(texts.len(), |i: int| texts[i]@)
}

/// The contents of groups.
pub open spec fn group_contents(groups: Seq<Option<String>>) -> Seq<Option<Seq<char>>> {
    Seq::new(
        groups.len(),
        |i: int|
            match groups[i] {
                Some(text) => Some(text@),
                None => None,
            },
    )
}

/// `regex::escape` puts a backslash before each character that has a meaning of its own in a
/// regular expression, and keeps the others.
#[verifier::external_body]
pub(crate) fn escape(text: &str) -> (r: String)
    ensures
        r@ == escaped(text@),
{
    regex::escape(text)
}

/// Compiles the expression with `regex::Regex::new`, matches it against the text with
/// `Regex::captures`, and takes the text of each named group with `Captures::name`. What comes out
/// depends on the expression, the text and the names alone, and is called `regex_groups`. There is
/// one entry for each name.
#[verifier::external_body]
pub(crate) fn find_groups(pattern: &str, text: &str, names: &Vec<&str>) -> (r: Result<
    Option<Vec<Option<String>>>,
    regex::Error,
>)
    ensures
        regex_groups(pattern@, text@, contents(names@)) == (match r {
            Ok(Some(groups)) => Some(Some(group_contents(groups@))),
            Ok(None) => Some(None),
            Err(_) => None,
        }),
        r matches Ok(Some(groups)) ==> groups@.len() == names@.len(),
{
    let regex = regex::Regex::new(pattern)?;
    Ok(regex.captures(text).map(|captures| {
        let texts = names.iter().map(|name| captures.name(name).map(|group| group.as_str()));
        texts.map(|text| text.map(|text| text.to_owned())).collect()
    }))
}

} // verus!
