use vstd::prelude::*;

verus! {

/// The characters with Unicode's White_Space property, which `char::is_whitespace` tests.
pub open spec fn is_white(c: char) -> bool {
    ('\u{9}' <= c && c <= '\u{d}') || c == ' ' || c == '\u{85}' || c == '\u{a0}' || c == '\u{1680}' || (
    '\u{2000}' <= c && c <= '\u{200a}') || c == '\u{2028}' || c == '\u{2029}' || c == '\u{202f}' || c
        == '\u{205f}' || c == '\u{3000}'
}

/// The words of `s`, where `cur` holds the characters of the word being read.
pub open spec fn words_from(s: Seq<char>, cur: Seq<char>) -> Seq<Seq<char>>
    decreases s.len(),
{
    if s.len() == 0 {
        if cur.len() == 0 {
            Seq::empty()
        } else {
            seq![cur]
        }
    } else if is_white(s[0]) {
        let rest = words_from(s.drop_first(), Seq::empty());
        if cur.len() == 0 {
            rest
        } else {
            seq![cur] + rest
        }
    } else {
        words_from(s.drop_first(), cur.push(s[0]))
    }
}

/// The words of a line: its maximal runs of characters that are not white
/// space, in order.
pub open spec fn words_of(s: Seq<char>) -> Seq<Seq<char>> {
    words_from(s, Seq::empty())
}

/// Relies on `str::split_once`: `None` when there is no ':', else the text
/// before the first ':' and the text after it.
#[verifier::external_body]
pub(crate) fn split_colon<'a>(s: &'a str) -> (r: Option<(&'a str, &'a str)>)
    ensures
        r is None <==> !s@.contains(':'),
        match r {
            Some((a, b)) => s@ == a@ + seq![':'] + b@ && !a@.contains(':'),
            None => true,
        },
{
    s.split_once(':')
}

/// Relies on `str::starts_with` with a `&str` pattern: whether `s` begins with `p`.
#[verifier::external_body]
pub(crate) fn begins_with(s: &str, p: &str) -> (r: bool)
    ensures
        r == (p@.len() <= s@.len() && s@.take(p@.len() as int) == p@),
{
    s.starts_with(p)
}

/// Relies on `str::split_whitespace`: the substrings of `s` separated by
/// any amount of Unicode white space, in order, with no empty ones.
#[verifier::external_body]
pub(crate) fn words<'a>(s: &'a str) -> (r: Vec<&'a str>)
    ensures
        r@.map_values(|w: &str| w@) == words_of(s@),
{
    s.split_whitespace().collect()
}

} // verus!
