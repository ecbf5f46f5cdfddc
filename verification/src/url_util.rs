//! URL handling through the url crate.  A URL is held as its serialization.
use vstd::prelude::*;

verus! {

/// The serialization of what the url crate parses from a text.
pub uninterp spec fn url_parse_spec(s: Seq<char>) -> Option<Seq<char>>;

/// The serialization of `base.join(href)`, with `base` parsed from its text.
pub uninterp spec fn url_join_spec(base: Seq<char>, href: Seq<char>) -> Option<Seq<char>>;

/// What `base.make_relative(url)` gives, both parsed from their texts.
pub uninterp spec fn url_relative_spec(base: Seq<char>, url: Seq<char>) -> Option<Seq<char>>;

/// The path of a URL (`Url::path`).
pub uninterp spec fn url_path_spec(u: Seq<char>) -> Seq<char>;

/// The part of a URL after its path: query and fragment (`&url[Position::AfterPath..]`).
pub uninterp spec fn url_after_path_spec(u: Seq<char>) -> Seq<char>;

/// The part of a URL after its host: port, path, query and fragment
/// (`&url[Position::AfterHost..]`).
pub uninterp spec fn url_after_host_spec(u: Seq<char>) -> Seq<char>;

/// Parses an absolute URL.
///
/// Claims of `url::Url::parse`: success and the serialization are a
/// function of the text, named `url_parse_spec`.
#[verifier::external_body]
pub fn parse(s: &str) -> (r: Option<String>)
    ensures
        r matches Some(u) ==> url_parse_spec(s@) == Some(u@),
        r is None ==> url_parse_spec(s@) is None,
{
    url::Url::parse(s).ok().map(String::from)
}

/// Resolves `href` against `base` (a URL serialization).
///
/// Claims of `url::Url::join` (with `base` turned back into a `Url` by
/// `Url::parse`): the result is a function of the two texts, named
/// `url_join_spec`.
#[verifier::external_body]
pub fn join(base: &str, href: &str) -> (r: Option<String>)
    ensures
        r matches Some(u) ==> url_join_spec(base@, href@) == Some(u@),
        r is None ==> url_join_spec(base@, href@) is None,
{
    match url::Url::parse(base) {
        Ok(b) => b.join(href).ok().map(String::from),
        Err(_) => None,
    }
}

/// The relative URL that leads from `base` to `url` (both serializations).
///
/// Claims of `url::Url::make_relative` (with both texts turned back into
/// `Url`s by `Url::parse`): the result is a function of the two texts, named
/// `url_relative_spec`.
#[verifier::external_body]
pub fn make_relative(base: &str, url: &str) -> (r: Option<String>)
    ensures
        r matches Some(u) ==> url_relative_spec(base@, url@) == Some(u@),
        r is None ==> url_relative_spec(base@, url@) is None,
{
    match (url::Url::parse(base), url::Url::parse(url)) {
        (Ok(b), Ok(u)) => b.make_relative(&u),
        _ => None,
    }
}

/// The path of a URL serialization.
///
/// Claims of `url::Url::path`: the path is a function of the text, named
/// `url_path_spec`.
#[verifier::external_body]
pub fn path(u: &str) -> (r: String)
    ensures
        r@ == url_path_spec(u@),
{
    match url::Url::parse(u) {
        Ok(x) => x.path().to_string(),
        Err(_) => String::new(),
    }
}

/// The query and fragment of a URL serialization.
///
/// Claims of indexing a `url::Url` with `Position::AfterPath..`: the part is
/// a function of the text, named `url_after_path_spec`.
#[verifier::external_body]
pub fn after_path(u: &str) -> (r: String)
    ensures
        r@ == url_after_path_spec(u@),
{
    match url::Url::parse(u) {
        Ok(x) => x[url::Position::AfterPath..].to_string(),
        Err(_) => String::new(),
    }
}

/// The port, path, query and fragment of a URL serialization.
///
/// Claims of indexing a `url::Url` with `Position::AfterHost..`: the part is
/// a function of the text, named `url_after_host_spec`.
#[verifier::external_body]
pub fn after_host(u: &str) -> (r: String)
    ensures
        r@ == url_after_host_spec(u@),
{
    match url::Url::parse(u) {
        Ok(x) => x[url::Position::AfterHost..].to_string(),
        Err(_) => String::new(),
    }
}

} // verus!
