//! Regular-expression matching, through the `regex` crate.
use vstd::prelude::*;

verus! {

/// The characters that `regex::escape` escapes (`regex_syntax::is_meta_character`).
pub open spec fn is_regex_meta(c: char) -> bool {
    c == '\\' || c == '.' || c == '+' || c == '*' || c == '?' || c == '(' || c == ')' || c == '|'
        || c == '[' || c == ']' || c == '{' || c == '}' || c == '^' || c == '$' || c == '#' || c
        == '&' || c == '-' || c == '~'
}

/// `s` with a backslash before each regex meta character.
pub open spec fn regex_escaped(s: Seq<char>) -> Seq<char>
    decreases s.len(),
{
    if s.len() == 0 {
        seq![]
    } else {
        regex_escaped(s.drop_last()) + if is_regex_meta(s.last()) {
            seq!['\\', s.last()]
        } else {
            seq![s.last()]
        }
    }
}

/// `regex::escape`: the text with each meta character preceded by a
/// backslash (its source pushes `\` before every character that
/// `is_meta_character` accepts, and the character itself).
#[verifier::external_body]
pub(crate) fn escape(s: &str) -> (r: String)
    ensures
        r@ == regex_escaped(s@),
{
    regex::escape(s)
}

/// The text of capture group 1 of the first match of `pattern` in `text`,
/// `None` when the pattern does not compile, does not match, or the group
/// takes no part in the match.
pub uninterp spec fn regex_group1(pattern: Seq<char>, text: Seq<char>) -> Option<Seq<char>>;

/// Whether `pattern` matches somewhere in `text`; `None` when the pattern
/// does not compile.
pub uninterp spec fn regex_search(pattern: Seq<char>, text: Seq<char>) -> Option<bool>;

/// `Regex::new(pattern)` then `captures(text)` and `get(1)`. Regex semantics
/// are named, not written out: the result is `regex_group1` of the pattern
/// and the text.
#[verifier::external_body]
pub(crate) fn first_group(pattern: &str, text: &str) -> (r: Option<String>)
    ensures
        match r {
            Some(x) => regex_group1(pattern@, text@) == Some(x@),
            None => regex_group1(pattern@, text@) is None,
        },
{
    match regex::Regex::new(pattern) {
        Ok(re) => match re.captures(text) {
            Some(caps) => match caps.get(1) {
                Some(m) => Some(m.as_str().to_string()),
                None => None,
            },
            None => None,
        },
        Err(_) => None,
    }
}

/// Whether `pattern` is a regular expression that `Regex::new` accepts.
pub uninterp spec fn regex_valid(pattern: Seq<char>) -> bool;

/// `Regex::new(pattern).is_ok()`: whether the pattern compiles.
#[verifier::external_body]
pub(crate) fn is_valid_regex(pattern: &str) -> (r: bool)
    ensures
        r == regex_valid(pattern@),
{
    regex::Regex::new(pattern).is_ok()
}

/// `Regex::new(pattern)` then `is_match(text)`. Regex semantics are named,
/// not written out: the result is `regex_search` of the pattern and the text,
/// and it is `None` exactly when the pattern does not compile.
#[verifier::external_body]
pub(crate) fn search(pattern: &str, text: &str) -> (r: Option<bool>)
    ensures
        r == regex_search(pattern@, text@),
        r is Some <==> regex_valid(pattern@),
{
    match regex::Regex::new(pattern) {
        Ok(re) => Some(re.is_match(text)),
        Err(_) => None,
    }
}

/// The byte ranges of the successive matches of `pattern` in `text`, as
/// `find_iter` reports them; empty when the pattern does not compile.
pub uninterp spec fn regex_match_ranges(pattern: Seq<char>, text: Seq<char>) -> Seq<(int, int)>;

/// `Regex::new(pattern)` then `find_iter(text)`, each match taken as its
/// `start()` and `end()` byte offsets. Which matches there are is named, not
/// written out: the result is `regex_match_ranges` of the pattern and the
/// text.
#[verifier::external_body]
pub(crate) fn match_ranges(pattern: &str, text: &str) -> (r: Vec<(usize, usize)>)
    ensures
        r@.map_values(|m: (usize, usize)| (m.0 as int, m.1 as int)) == regex_match_ranges(pattern@, text@),
{
    match regex::Regex::new(pattern) {
        Ok(re) => re.find_iter(text).map(|m| (m.start(), m.end())).collect(),
        Err(_) => Vec::new(),
    }
}

} // verus!
