//! Regular expressions, through the `regex` crate. Each pattern the library
//! uses is a fixed text; what a search finds is named, as a function of the
//! pattern and the text searched, and the logic around a search is verified
//! against that name.
use vstd::prelude::*;

verus! {

/// The capture groups of one match, each the text it matched when it took part.
pub open spec fn groups_view(g: Seq<Option<String>>) -> Seq<Option<Seq<char>>> {
    g.map_values(|o: Option<String>| match o {
        Some(s) => Some(s@),
        None => None,
    })
}

/// Whether `pattern` matches somewhere in `text` (`None` when the pattern
/// does not compile).
pub uninterp spec fn regex_found(pattern: Seq<char>, text: Seq<char>) -> Option<bool>;

/// The capture groups of the first match of `pattern` in `text` (`None`
/// when there is no match or the pattern does not compile).
pub uninterp spec fn regex_first(pattern: Seq<char>, text: Seq<char>) -> Option<Seq<Option<Seq<char>>>>;

/// The capture groups of each successive match of `pattern` in `text`
/// (none when the pattern does not compile).
pub uninterp spec fn regex_all(pattern: Seq<char>, text: Seq<char>) -> Seq<Seq<Option<Seq<char>>>>;

/// `text` with every match of `pattern` replaced by `rep` (`text` itself
/// when the pattern does not compile).
pub uninterp spec fn regex_replaced(pattern: Seq<char>, text: Seq<char>, rep: Seq<char>) -> Seq<char>;

/// Compiles `pattern` with `regex::Regex::new` and asks `Regex::is_match`
/// whether it matches anywhere in `text`. The contract names the answer
/// only; `None` when the pattern does not compile.
#[verifier::external_body]
pub fn regex_is_match(pattern: &str, text: &str) -> (r: Option<bool>)
    ensures
        r == regex_found(pattern@, text@),
{
    match regex::Regex::new(pattern) {
        Ok(re) => Some(re.is_match(text)),
        Err(_) => None,
    }
}

/// Compiles `pattern` and takes the capture groups of its first match in
/// `text` (`Regex::captures`), each group as the text it matched. The
/// contract names the result, and says what the crate documents of every
/// match: its groups start with the whole match (group 0), which is there.
#[verifier::external_body]
pub fn regex_captures(pattern: &str, text: &str) -> (r: Option<Vec<Option<String>>>)
    ensures
        match r {
            Some(g) => regex_first(pattern@, text@) == Some(groups_view(g@)),
            None => regex_first(pattern@, text@) is None,
        },
        r matches Some(g) ==> (g@.len() > 0 && g@[0] is Some),
{
    let re = regex::Regex::new(pattern).ok()?;
    let caps = re.captures(text)?;
    Some(caps.iter().map(|m| m.map(|x| x.as_str().to_string())).collect())
}

/// Compiles `pattern` and takes the capture groups of each successive
/// match in `text` (`Regex::captures_iter`). The contract names the result,
/// and that each match starts with its group 0, which is there.
#[verifier::external_body]
pub fn regex_captures_all(pattern: &str, text: &str) -> (r: Vec<Vec<Option<String>>>)
    ensures
        r@.map_values(|g: Vec<Option<String>>| groups_view(g@)) == regex_all(pattern@, text@),
        forall|i: int| 0 <= i < r@.len() ==> (#[trigger] r@[i])@.len() > 0 && r@[i]@[0] is Some,
{
    match regex::Regex::new(pattern) {
        Ok(re) => re
            .captures_iter(text)
            .map(|c| c.iter().map(|m| m.map(|x| x.as_str().to_string())).collect())
            .collect(),
        Err(_) => Vec::new(),
    }
}

/// Compiles `pattern` and replaces each of its matches in `text` by `rep`
/// (`Regex::replace_all`). The contract names the result only.
#[verifier::external_body]
pub fn regex_replace_all(pattern: &str, text: &str, rep: &str) -> (r: String)
    ensures
        r@ == regex_replaced(pattern@, text@, rep@),
{
    match regex::Regex::new(pattern) {
        Ok(re) => re.replace_all(text, rep).into_owned(),
        Err(_) => text.to_string(),
    }
}

} // verus!
