//! Regular-expression search through the regex crate.
use vstd::prelude::*;
use vstd::string::*;
use vstd::utf8::*;

verus! {

/// Where the regex crate finds `pattern` in `hay` searching from byte offset
/// `start`: the byte range of the leftmost-first match, `None` when there is
/// no match or the pattern does not compile.
pub uninterp spec fn regex_find_spec(pattern: Seq<char>, hay: Seq<char>, start: int) -> Option<(int, int)>;

/// Searches `hay` for `pattern` from byte offset `start`.
///
/// Claims of `regex::Regex::new` followed by `Regex::find_at`: the match is a
/// function of the pattern, the text and the offset, named `regex_find_spec`;
/// as the regex crate documents, a match starts no earlier than `start`, ends
/// within the text, and both its ends fall on character boundaries.
/// `find_at` panics on an offset past the end of the text, which `requires`
/// leaves out.
#[verifier::external_body]
pub fn find_at(pattern: &str, hay: &str, start: usize) -> (r: Option<(usize, usize)>)
    requires
        start <= hay.spec_bytes().len(),
    ensures
        r matches Some(m) ==> regex_find_spec(pattern@, hay@, start as int) == Some(
            (m.0 as int, m.1 as int),
        ),
        r is None ==> regex_find_spec(pattern@, hay@, start as int) is None,
        r matches Some(m) ==> start <= m.0 <= m.1 <= hay.spec_bytes().len() && is_char_boundary(
            hay.spec_bytes(),
            m.0 as int,
        ) && is_char_boundary(hay.spec_bytes(), m.1 as int),
{
    match regex::Regex::new(pattern) {
        Ok(re) => re.find_at(hay, start).map(|m| (m.start(), m.end())),
        Err(_) => None,
    }
}

/// Whether `pattern` matches somewhere in `hay`.
pub open spec fn is_match_spec(pattern: Seq<char>, hay: Seq<char>) -> bool {
    regex_find_spec(pattern, hay, 0) is Some
}

/// Whether `pattern` matches somewhere in `hay` (as `Regex::is_match` tells,
/// which is whether `find` finds a match).
pub fn is_match(pattern: &str, hay: &str) -> (r: bool)
    ensures
        r == is_match_spec(pattern@, hay@),
{
    find_at(pattern, hay, 0).is_some()
}

} // verus!
